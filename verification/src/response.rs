//! Reading the rewritten text out of a chat-completions reply.
use vstd::prelude::*;
use crate::errors::RewriteError;
use crate::text::{
    chars_of, is_blank_chars, join_chars, join_spec, string_from_chars, trim_spec, char_views,
};

verus! {

/// A JSON value as the reply holds it. Object members keep their order; a
/// number is kept as the `u64` it denotes, when it denotes one.
#[derive(Debug)]
pub enum JsonValue {
    Null,
    Bool(bool),
    Number(Option<u64>),
    Text(String),
    Array(Vec<JsonValue>),
    Object(Vec<(String, JsonValue)>),
}

/// The value of the first member named `key`.
pub open spec fn member_get(members: Seq<(String, JsonValue)>, key: Seq<char>) -> Option<JsonValue>
    decreases members.len(),
{
    if members.len() == 0 {
        None
    } else if members[0].0@ == key {
        Some(members[0].1)
    } else {
        member_get(members.drop_first(), key)
    }
}

/// The member `key` of an object; nothing for other values.
pub open spec fn json_get(v: JsonValue, key: Seq<char>) -> Option<JsonValue> {
    match v {
        JsonValue::Object(members) => member_get(members@, key),
        _ => None,
    }
}

/// The element `i` of an array; nothing for other values.
pub open spec fn json_index(v: JsonValue, i: int) -> Option<JsonValue> {
    match v {
        JsonValue::Array(items) => if 0 <= i < items@.len() {
            Some(items@[i])
        } else {
            None
        },
        _ => None,
    }
}

/// The text of a string value; nothing for other values.
pub open spec fn json_text(v: JsonValue) -> Option<Seq<char>> {
    match v {
        JsonValue::Text(s) => Some(s@),
        _ => None,
    }
}

/// `json_get` through an optional value.
pub open spec fn opt_get(v: Option<JsonValue>, key: Seq<char>) -> Option<JsonValue> {
    match v {
        Some(x) => json_get(x, key),
        None => None,
    }
}

/// The first choice of a reply: `choices[0]`.
pub open spec fn first_choice(reply: JsonValue) -> Option<JsonValue> {
    match json_get(reply, "choices"@) {
        Some(c) => json_index(c, 0),
        None => None,
    }
}

/// Why the model stopped: the choice's `finish_reason` when it is a string,
/// else "unknown".
pub open spec fn finish_reason_of(choice: JsonValue) -> Seq<char> {
    match json_get(choice, "finish_reason"@) {
        Some(v) => match json_text(v) {
            Some(s) => s,
            None => "unknown"@,
        },
        None => "unknown"@,
    }
}

/// The choice's `message.content`, null when it is missing.
pub open spec fn message_content(choice: JsonValue) -> JsonValue {
    match opt_get(json_get(choice, "message"@), "content"@) {
        Some(v) => v,
        None => JsonValue::Null,
    }
}

/// The text of one content part: its `text` member when that is a string,
/// else the part itself when it is a string.
pub open spec fn part_text(p: JsonValue) -> Option<Seq<char>> {
    match json_get(p, "text"@) {
        Some(t) => match json_text(t) {
            Some(s) => Some(s),
            None => json_text(p),
        },
        None => json_text(p),
    }
}

/// The texts of the parts that have one, in order.
pub open spec fn part_texts(parts: Seq<JsonValue>) -> Seq<Seq<char>>
    decreases parts.len(),
{
    if parts.len() == 0 {
        seq![]
    } else {
        let prev = part_texts(parts.drop_last());
        match part_text(parts.last()) {
            Some(s) => prev.push(s),
            None => prev,
        }
    }
}

/// The text of a message content: a string as it is, the texts of an array
/// of parts joined by line feeds, and nothing for other values.
pub open spec fn content_text(content: JsonValue) -> Seq<char> {
    match content {
        JsonValue::Text(s) => s@,
        JsonValue::Array(parts) => join_spec(part_texts(parts@), seq!['\n']),
        _ => seq![],
    }
}

/// The reasoning tokens that the reply reports under
/// `usage.completion_tokens_details.reasoning_tokens`, else 0.
pub open spec fn reasoning_tokens_of(reply: JsonValue) -> u64 {
    match opt_get(opt_get(json_get(reply, "usage"@), "completion_tokens_details"@), "reasoning_tokens"@) {
        Some(JsonValue::Number(Some(n))) => n,
        _ => 0,
    }
}

/// The rewritten text of a reply, and whether the model stopped at the token
/// limit (the text may then be cut short).
pub struct RewrittenText {
    pub text: String,
    pub stopped_for_length: bool,
}

fn str_eq(a: &str, b: &str) -> (r: bool)
    ensures
        r == (a@ == b@),
{
    let x = a.to_owned();
    let y = b.to_owned();
    x == y
}

/// The member `key` of `v`, if `v` is an object that has one.
pub fn get_member<'a>(v: &'a JsonValue, key: &str) -> (r: Option<&'a JsonValue>)
    ensures
        match r {
            Some(x) => json_get(*v, key@) == Some(*x),
            None => json_get(*v, key@) is None,
        },
{
    match v {
        JsonValue::Object(members) => {
            let mut i: usize = 0;
            assert(members@.skip(0) =~= members@);
            while i < members.len()
                invariant
                    i <= members@.len(),
                    member_get(members@, key@) == member_get(members@.skip(i as int), key@),
                    json_get(*v, key@) == member_get(members@, key@),
                decreases members@.len() - i,
            {
                let ghost rest = members@.skip(i as int);
                assert(rest[0] == members@[i as int]);
                if str_eq(members[i].0.as_str(), key) {
                    assert(rest.len() > 0);
                    assert(member_get(rest, key@) == Some(rest[0].1));
                    assert(json_get(*v, key@) == member_get(members@, key@));
                    let found = &members[i].1;
                    assert(*found == members@[i as int].1);
                    return Some(found);
                }
                assert(rest.drop_first() =~= members@.skip(i + 1));
                i = i + 1;
            }
            None
        },
        _ => None,
    }
}

/// The element `i` of `v`, if `v` is an array that long.
pub fn get_index<'a>(v: &'a JsonValue, i: usize) -> (r: Option<&'a JsonValue>)
    ensures
        match r {
            Some(x) => json_index(*v, i as int) == Some(*x),
            None => json_index(*v, i as int) is None,
        },
{
    match v {
        JsonValue::Array(items) => if i < items.len() {
            Some(&items[i])
        } else {
            None
        },
        _ => None,
    }
}

fn text_of(v: &JsonValue) -> (r: Option<&String>)
    ensures
        match r {
            Some(s) => json_text(*v) == Some(s@),
            None => json_text(*v) is None,
        },
{
    match v {
        JsonValue::Text(s) => Some(s),
        _ => None,
    }
}

fn part_text_exec(p: &JsonValue) -> (r: Option<&String>)
    ensures
        match r {
            Some(s) => part_text(*p) == Some(s@),
            None => part_text(*p) is None,
        },
{
    match get_member(p, "text") {
        Some(t) => match text_of(t) {
            Some(s) => Some(s),
            None => text_of(p),
        },
        None => text_of(p),
    }
}

fn content_text_exec(content: &JsonValue) -> (r: Vec<char>)
    ensures
        r@ == content_text(*content),
{
    match content {
        JsonValue::Text(s) => chars_of(s.as_str()),
        JsonValue::Array(parts) => {
            let mut texts: Vec<Vec<char>> = Vec::new();
            let mut i: usize = 0;
            while i < parts.len()
                invariant
                    i <= parts@.len(),
                    char_views(texts@) == part_texts(parts@.take(i as int)),
                decreases parts@.len() - i,
            {
                proof {
                    assert(parts@.take(i + 1).drop_last() =~= parts@.take(i as int));
                    assert(parts@.take(i + 1).last() == parts@[i as int]);
                }
                match part_text_exec(&parts[i]) {
                    Some(s) => {
                        let ghost prev = texts@;
                        let cs = chars_of(s.as_str());
                        texts.push(cs);
                        assert(char_views(texts@) =~= char_views(prev).push(cs@));
                    },
                    None => {},
                }
                i = i + 1;
            }
            assert(parts@.take(parts@.len() as int) =~= parts@);
            let mut sep: Vec<char> = Vec::new();
            sep.push('\n');
            assert(sep@ =~= seq!['\n']);
            join_chars(&texts, &sep)
        },
        _ => Vec::new(),
    }
}

/// Reads the rewritten text out of a reply: the content of `choices[0]`
/// (a string, or the texts of its parts joined by line feeds). A reply
/// without a first choice, or whose text is whitespace only, is an error.
pub fn extract_rewritten_content(reply: &JsonValue) -> (r: Result<RewrittenText, RewriteError>)
    ensures
        first_choice(*reply) is None ==> r matches Err(RewriteError::NoChoices),
        first_choice(*reply) matches Some(choice) ==> {
            let text = content_text(message_content(choice));
            if trim_spec(text).len() == 0 {
                r matches Err(RewriteError::EmptyContent { finish_reason, reasoning_tokens })
                    && finish_reason@ == finish_reason_of(choice)
                    && reasoning_tokens == reasoning_tokens_of(*reply)
            } else {
                r matches Ok(t) && t.text@ == text
                    && t.stopped_for_length == (finish_reason_of(choice) == "length"@)
            }
        },
{
    let choices = get_member(reply, "choices");
    let choice = match choices {
        Some(c) => get_index(c, 0),
        None => None,
    };
    let choice = match choice {
        Some(c) => c,
        None => {
            return Err(RewriteError::NoChoices);
        },
    };
    let finish_reason: String = match get_member(choice, "finish_reason") {
        Some(v) => match text_of(v) {
            Some(s) => s.clone(),
            None => "unknown".to_owned(),
        },
        None => "unknown".to_owned(),
    };
    let content = match get_member(choice, "message") {
        Some(m) => get_member(m, "content"),
        None => None,
    };
    let text = match content {
        Some(v) => content_text_exec(v),
        None => {
            let null = JsonValue::Null;
            content_text_exec(&null)
        },
    };
    if is_blank_chars(&text) {
        let usage = get_member(reply, "usage");
        let details = match usage {
            Some(u) => get_member(u, "completion_tokens_details"),
            None => None,
        };
        let tokens_value = match details {
            Some(d) => get_member(d, "reasoning_tokens"),
            None => None,
        };
        let reasoning_tokens: u64 = match tokens_value {
            Some(JsonValue::Number(Some(n))) => *n,
            _ => 0,
        };
        return Err(RewriteError::EmptyContent { finish_reason, reasoning_tokens });
    }
    let stopped_for_length = str_eq(finish_reason.as_str(), "length");
    Ok(RewrittenText { text: string_from_chars(&text), stopped_for_length })
}

} // verus!
