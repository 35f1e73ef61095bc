use vstd::prelude::*;

use crate::text::{concat_text, owned, same_text, trim, trimmed};

verus! {

/// A JSON value as the chat service exchanges it. Numbers are kept as the
/// text they were written with; object members keep their order.
pub enum Json {
    Null,
    Bool(bool),
    Number(String),
    Str(String),
    Array(Vec<Json>),
    Object(Vec<(String, Json)>),
}

// ---------------------------------------------------------------------------
// Reading a reply
// ---------------------------------------------------------------------------

/// The value of the first member named `key`, or `Null` when there is none.
pub open spec fn member(es: Seq<(String, Json)>, key: Seq<char>) -> Json
    decreases es.len(),
{
    if es.len() == 0 {
        Json::Null
    } else if es[0].0@ == key {
        es[0].1
    } else {
        member(es.drop_first(), key)
    }
}

/// `v[key]`: the member `key` of an object, `Null` for anything else.
pub open spec fn field(v: Json, key: Seq<char>) -> Json {
    match v {
        Json::Object(es) => member(es@, key),
        _ => Json::Null,
    }
}

/// `v[i]`: the element `i` of an array, `Null` for anything else.
pub open spec fn element(v: Json, i: int) -> Json {
    match v {
        Json::Array(items) => if 0 <= i < items@.len() {
            items@[i]
        } else {
            Json::Null
        },
        _ => Json::Null,
    }
}

/// The text of a JSON string, `None` for any other value.
pub open spec fn as_text(v: Json) -> Option<Seq<char>> {
    match v {
        Json::Str(s) => Some(s@),
        _ => None,
    }
}

/// The answer shown for a chat completion reply:
/// `choices[0].message.content` when that is a string, else "No response".
pub open spec fn reply_text(resp: Json) -> Seq<char> {
    match as_text(
        field(field(element(field(resp, "choices"@), 0), "message"@), "content"@),
    ) {
        Some(t) => t,
        None => "No response"@,
    }
}

/// When a reply holds a string at `choices[0].message.content`, the answer
/// is that whole string, unchanged.
pub proof fn lemma_answer_is_whole_content(resp: Json, content: String)
    requires
        field(field(element(field(resp, "choices"@), 0), "message"@), "content"@) == Json::Str(
            content,
        ),
    ensures
        reply_text(resp) == content@,
{
}

/// When a reply holds no string at `choices[0].message.content` (no such
/// member, or a value of another kind), the answer is "No response".
pub proof fn lemma_answer_without_content(resp: Json)
    requires
        !(field(field(element(field(resp, "choices"@), 0), "message"@), "content"@) is Str),
    ensures
        reply_text(resp) == "No response"@,
{
}

/// The member `key` of `v`; `None` stands for the `Null` that indexing gives
/// for a missing member or a value that is not an object.
fn lookup<'a>(v: &'a Json, key: &str) -> (r: Option<&'a Json>)
    ensures
        match r {
            Some(j) => *j == field(*v, key@),
            None => field(*v, key@) == Json::Null,
        },
{
    match v {
        Json::Object(es) => {
            let mut k: usize = 0;
            assert(es@.skip(0) =~= es@);
            while k < es.len()
                invariant
                    k <= es@.len(),
                    field(*v, key@) == member(es@, key@),
                    member(es@, key@) == member(es@.skip(k as int), key@),
                decreases es.len() - k,
            {
                assert(es@.skip(k as int).drop_first() =~= es@.skip(k + 1));
                assert(es@.skip(k as int)[0] == es@[k as int]);
                if same_text(es[k].0.as_str(), key) {
                    return Some(&es[k].1);
                }
                k += 1;
            }
            None
        },
        _ => None,
    }
}

/// The first element of `v`; `None` stands for `Null`.
fn first_element<'a>(v: &'a Json) -> (r: Option<&'a Json>)
    ensures
        match r {
            Some(j) => *j == element(*v, 0),
            None => element(*v, 0) == Json::Null,
        },
{
    match v {
        Json::Array(items) => if items.len() > 0 {
            Some(&items[0])
        } else {
            None
        },
        _ => None,
    }
}

/// The answer text of a chat completion reply, "No response" when the reply
/// holds no string at `choices[0].message.content`.
pub fn answer_of(resp: &Json) -> (r: String)
    ensures
        r@ == reply_text(*resp),
{
    let content = match lookup(resp, "choices") {
        Some(choices) => match first_element(choices) {
            Some(first) => match lookup(first, "message") {
                Some(message) => lookup(message, "content"),
                None => None,
            },
            None => None,
        },
        None => None,
    };
    match content {
        Some(Json::Str(s)) => s.clone(),
        _ => owned("No response"),
    }
}

/// The line printed for an answer.
pub fn reply_line(answer: &str) -> (r: String)
    ensures
        r@ == "DragonFoxAI > "@ + answer@,
{
    concat_text("DragonFoxAI > ", answer)
}

// ---------------------------------------------------------------------------
// Building a request
// ---------------------------------------------------------------------------

pub open spec fn model_name() -> Seq<char> {
    "nvidia/nemotron-3-nano-omni-30b-a3b-reasoning:free"@
}

pub open spec fn expert_prompt() -> Seq<char> {
    "You are an expert in programming and can help with any questions."@
}

pub open spec fn teacher_prompt() -> Seq<char> {
    "You are a expert teacher"@
}

/// `j` is the string `s`.
pub open spec fn is_text(j: Json, s: Seq<char>) -> bool {
    as_text(j) == Some(s)
}

/// `j` is the object `{"role": role, "content": content}`.
pub open spec fn is_message(j: Json, role: Seq<char>, content: Seq<char>) -> bool {
    &&& j matches Json::Object(es)
    &&& es@.len() == 2
    &&& es@[0].0@ == "role"@
    &&& is_text(es@[0].1, role)
    &&& es@[1].0@ == "content"@
    &&& is_text(es@[1].1, content)
}

/// `j` is the chat completion request for `prompt`: the model, two system
/// messages and the prompt as the user's message.
pub open spec fn is_chat_request(j: Json, prompt: Seq<char>) -> bool {
    &&& j matches Json::Object(es)
    &&& es@.len() == 2
    &&& es@[0].0@ == "model"@
    &&& is_text(es@[0].1, model_name())
    &&& es@[1].0@ == "messages"@
    &&& es@[1].1 matches Json::Array(ms)
    &&& ms@.len() == 3
    &&& is_message(ms@[0], "system"@, expert_prompt())
    &&& is_message(ms@[1], "system"@, teacher_prompt())
    &&& is_message(ms@[2], "user"@, prompt)
}

fn message(role: &str, content: String) -> (j: Json)
    ensures
        is_message(j, role@, content@),
{
    let mut es: Vec<(String, Json)> = Vec::new();
    es.push((owned("role"), Json::Str(owned(role))));
    es.push((owned("content"), Json::Str(content)));
    Json::Object(es)
}

/// The chat completion request sent for a prompt; the prompt is trimmed.
pub fn chat_request(prompt: &str) -> (j: Json)
    ensures
        is_chat_request(j, trimmed(prompt@)),
{
    let mut ms: Vec<Json> = Vec::new();
    ms.push(
        message(
            "system",
            owned("You are an expert in programming and can help with any questions."),
        ),
    );
    ms.push(message("system", owned("You are a expert teacher")));
    ms.push(message("user", trim(prompt)));
    let mut es: Vec<(String, Json)> = Vec::new();
    es.push(
        (owned("model"), Json::Str(owned("nvidia/nemotron-3-nano-omni-30b-a3b-reasoning:free"))),
    );
    es.push((owned("messages"), Json::Array(ms)));
    Json::Object(es)
}

// ---------------------------------------------------------------------------
// The conversation loop's decisions
// ---------------------------------------------------------------------------

/// Accepts an API key unless it is empty; the error is the message shown.
pub fn check_api_key(key: &str) -> (r: Result<(), String>)
    ensures
        r is Ok <==> key@.len() > 0,
        r matches Err(e) ==> e@ == "API key cannot be empty."@,
{
    if key.is_empty() {
        Err(owned("API key cannot be empty."))
    } else {
        Ok(())
    }
}

/// Whether a line read from the user is sent as a question: empty lines are
/// skipped.
pub fn should_ask(prompt: &str) -> (r: bool)
    ensures
        r == (prompt@.len() > 0),
{
    !prompt.is_empty()
}

} // verus!
