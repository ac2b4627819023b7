//! Requests to the completion endpoint, and what comes back read as a
//! message.
//!
//! The request is sent elsewhere. This module says what is sent, and turns
//! each outcome of sending it into the one message that is delivered for
//! it: the assistant's reply, or a message of the system that names the
//! failure.

use crate::clock::{is_time_of_day, timestamp};
use crate::conversation::{Message, MessageView, Role};
use crate::text::{chars_of, join, push_all, string_of};
use serde_json::Value;
use vstd::prelude::*;

verus! {

/// A request to the completion endpoint.
#[derive(Clone, Debug, PartialEq, Eq)]
pub struct Request {
    pub url: String,
    pub token: String,
    pub model: String,
    /// What the user wrote.
    pub text: String,
}

/// What a request holds.
pub ghost struct RequestView {
    pub url: Seq<char>,
    pub token: Seq<char>,
    pub model: Seq<char>,
    pub text: Seq<char>,
}

impl View for Request {
    type V = RequestView;

    open spec fn view(&self) -> RequestView {
        RequestView { url: self.url@, token: self.token@, model: self.model@, text: self.text@ }
    }
}

/// The seconds after which a request is given up.
pub const TIMEOUT_SECONDS: u64 = 30;

/// The digit of `n` in base sixteen, in lower case.
pub open spec fn hex_digit(n: int) -> char {
    seq!['0', '1', '2', '3', '4', '5', '6', '7', '8', '9', 'a', 'b', 'c', 'd', 'e', 'f'][n]
}

/// How a character stands inside a string of JSON: a quotation mark and a
/// backslash behind a backslash, a control character by its letter or its
/// number, any other as it is.
pub open spec fn escaped(c: char) -> Seq<char> {
    let u = c as u32;
    if c == '"' {
        seq!['\\', '"']
    } else if c == '\\' {
        seq!['\\', '\\']
    } else if u == 0x08 {
        seq!['\\', 'b']
    } else if u == 0x09 {
        seq!['\\', 't']
    } else if u == 0x0A {
        seq!['\\', 'n']
    } else if u == 0x0C {
        seq!['\\', 'f']
    } else if u == 0x0D {
        seq!['\\', 'r']
    } else if u < 0x20 {
        seq!['\\', 'u', '0', '0', hex_digit(u as int / 16), hex_digit(u as int % 16)]
    } else {
        seq![c]
    }
}

/// The characters of `text` as they stand inside a string of JSON.
pub open spec fn escaped_text(text: Seq<char>) -> Seq<char>
    decreases text.len(),
{
    if text.len() == 0 {
        Seq::empty()
    } else {
        escaped_text(text.drop_last()) + escaped(text.last())
    }
}

/// `text` as a string of JSON, between quotation marks.
pub open spec fn json_quoted(text: Seq<char>) -> Seq<char> {
    seq!['"'] + escaped_text(text) + seq!['"']
}

/// `serde_json::to_string` on a string: the string between quotation
/// marks, with a quotation mark and a backslash behind a backslash, and
/// each control character below U+0020 by its letter (`b`, `t`, `n`, `f`,
/// `r`) or as `\u00` and two digits in base sixteen.
#[verifier::external_body]
fn json_quote(text: &str) -> (quoted: String)
    ensures
        quoted@ == json_quoted(text@),
{
    serde_json::to_string(text).unwrap_or_default()
}

/// The member of the JSON object `doc` under `key`, as JSON, as
/// `serde_json` reads and prints it; nothing where `doc` is no JSON, no
/// object, or has no such member.
pub uninterp spec fn member_text(doc: Seq<char>, key: Seq<char>) -> Option<Seq<char>>;

/// The element of the JSON array `doc` at `index`, as JSON, as
/// `serde_json` reads and prints it; nothing where `doc` is no JSON, no
/// array, or has no such element.
pub uninterp spec fn element_text(doc: Seq<char>, index: usize) -> Option<Seq<char>>;

/// The characters of the JSON string `doc`, as `serde_json` reads it;
/// nothing where `doc` is no JSON or no string.
pub uninterp spec fn string_value(doc: Seq<char>) -> Option<Seq<char>>;

/// `serde_json::Value::get` with a key, on the value that
/// `serde_json::from_str` reads `doc` as; the member that it finds is
/// handed out as `serde_json::to_string` prints it. The result is named,
/// not described: the same document and key give the same member.
#[verifier::external_body]
fn json_member(doc: &str, key: &str) -> (member: Option<String>)
    ensures
        member.deep_view() == member_text(doc@, key@),
{
    let value: Value = serde_json::from_str(doc).ok()?;
    serde_json::to_string(value.get(key)?).ok()
}

/// `serde_json::Value::get` with an index, on the value that
/// `serde_json::from_str` reads `doc` as; the element that it finds is
/// handed out as `serde_json::to_string` prints it. The result is named,
/// not described: the same document and index give the same element.
#[verifier::external_body]
fn json_element(doc: &str, index: usize) -> (element: Option<String>)
    ensures
        element.deep_view() == element_text(doc@, index),
{
    let value: Value = serde_json::from_str(doc).ok()?;
    serde_json::to_string(value.get(index)?).ok()
}

/// `serde_json::Value::as_str` on the value that `serde_json::from_str`
/// reads `doc` as. The result is named, not described: the same document
/// gives the same string.
#[verifier::external_body]
fn json_string(doc: &str) -> (text: Option<String>)
    ensures
        text.deep_view() == string_value(doc@),
{
    let value: Value = serde_json::from_str(doc).ok()?;
    value.as_str().map(|text| text.to_string())
}

/// The JSON `doc` as `serde_json` prints it over several lines; nothing
/// where `doc` is no JSON.
pub uninterp spec fn pretty_text(doc: Seq<char>) -> Option<Seq<char>>;

/// `serde_json::to_string_pretty` on the value that `serde_json::from_str`
/// reads `doc` as. The result is named, not described: the same document
/// is printed the same way.
#[verifier::external_body]
fn json_pretty(doc: &str) -> (pretty: Option<String>)
    ensures
        pretty.deep_view() == pretty_text(doc@),
{
    let value: Value = serde_json::from_str(doc).ok()?;
    serde_json::to_string_pretty(&value).ok()
}

/// The body of the request for one message of the user: the model and a
/// list of messages that holds that message alone.
pub open spec fn body_of(model: Seq<char>, text: Seq<char>) -> Seq<char> {
    "{\"model\":"@ + json_quoted(model) + ",\"messages\":[{\"role\":\"user\",\"content\":"@
        + json_quoted(text) + "}]}"@
}

/// The body of the request that asks `model` to answer `text`.
pub fn request_body(model: &str, text: &str) -> (body: String)
    ensures
        body@ == body_of(model@, text@),
{
    let mut body = chars_of("{\"model\":");
    push_all(&mut body, &chars_of(json_quote(model).as_str()));
    push_all(&mut body, &chars_of(",\"messages\":[{\"role\":\"user\",\"content\":"));
    push_all(&mut body, &chars_of(json_quote(text).as_str()));
    push_all(&mut body, &chars_of("}]}"));
    string_of(&body)
}

/// The value of the header that authorises a request.
pub open spec fn bearer_of(token: Seq<char>) -> Seq<char> {
    "Bearer "@ + token
}

/// The value of the header that authorises a request with `token`.
pub fn bearer(token: &str) -> (value: String)
    ensures
        value@ == bearer_of(token@),
{
    let mut value = chars_of("Bearer ");
    push_all(&mut value, &chars_of(token));
    string_of(&value)
}

impl Request {
    /// The body that is sent.
    pub fn body(&self) -> (body: String)
        ensures
            body@ == body_of(self@.model, self@.text),
    {
        request_body(self.model.as_str(), self.text.as_str())
    }

    /// The value of the header that authorises the request.
    pub fn authorization(&self) -> (value: String)
        ensures
            value@ == bearer_of(self@.token),
    {
        bearer(self.token.as_str())
    }
}

/// `text` with four spaces behind each of its line feeds.
pub open spec fn feeds_indented(text: Seq<char>) -> Seq<char>
    decreases text.len(),
{
    if text.len() == 0 {
        Seq::empty()
    } else if text.last() == '\n' {
        feeds_indented(text.drop_last()) + seq!['\n', ' ', ' ', ' ', ' ']
    } else {
        feeds_indented(text.drop_last()).push(text.last())
    }
}

/// The command line that sends `payload`, as it is printed, to `url` with
/// `token`.
pub open spec fn curl_command(url: Seq<char>, token: Seq<char>, payload: Seq<char>) -> Seq<char> {
    "curl -X POST '"@ + url + "' -H 'Content-Type: application/json' -H 'Authorization: Bearer "@
        + token + "' -d '"@ + feeds_indented(payload) + "'"@
}

/// The command line for `curl` that sends `payload`, as it is printed, to
/// `url` with `token`; each line of the payload after the first stands
/// behind four spaces.
pub fn curl_command_for(url: &str, token: &str, payload: &str) -> (command: String)
    ensures
        command@ == curl_command(url@, token@, payload@),
{
    let printed = chars_of(payload);
    let mut command = chars_of("curl -X POST '");
    push_all(&mut command, &chars_of(url));
    push_all(
        &mut command,
        &chars_of("' -H 'Content-Type: application/json' -H 'Authorization: Bearer "),
    );
    push_all(&mut command, &chars_of(token));
    push_all(&mut command, &chars_of("' -d '"));
    let ghost head = command@;
    let mut i: usize = 0;
    assert(printed@.take(0) =~= Seq::<char>::empty());
    while i < printed.len()
        invariant
            i <= printed.len(),
            command@ == head + feeds_indented(printed@.take(i as int)),
        decreases printed.len() - i,
    {
        assert(printed@.take(i + 1).drop_last() =~= printed@.take(i as int));
        command.push(printed[i]);
        if printed[i] == '\n' {
            command.push(' ');
            command.push(' ');
            command.push(' ');
            command.push(' ');
        }
        assert(command@ =~= head + feeds_indented(printed@.take(i + 1)));
        i += 1;
    }
    assert(printed@.take(printed.len() as int) =~= printed@);
    push_all(&mut command, &chars_of("'"));
    string_of(&command)
}

/// How the JSON `payload` is printed over several lines; nothing where it
/// is no JSON.
pub open spec fn printed_payload(payload: Seq<char>) -> Seq<char> {
    match pretty_text(payload) {
        Some(text) => text,
        None => Seq::empty(),
    }
}

/// The command line for `curl` that sends the JSON `payload` to `url` with
/// `token`: the payload printed over several lines, the lines after the
/// first behind four spaces; empty where `payload` is no JSON.
pub fn format_curl_command(url: &str, token: &str, payload: &str) -> (command: String)
    ensures
        command@ == curl_command(url@, token@, printed_payload(payload@)),
{
    let printed = match json_pretty(payload) {
        Some(text) => text,
        None => String::new(),
    };
    curl_command_for(url, token, printed.as_str())
}

/// What `found` holds, looked into once more by `next`.
pub open spec fn and_then(
    found: Option<Seq<char>>,
    next: spec_fn(Seq<char>) -> Option<Seq<char>>,
) -> Option<Seq<char>> {
    match found {
        Some(doc) => next(doc),
        None => None,
    }
}

/// The reply that the body of a response holds: the string under
/// `content` in the object under `message` in the first element of the
/// array under `choices`.
pub open spec fn completion_of(body: Seq<char>) -> Option<Seq<char>> {
    let choices = member_text(body, "choices"@);
    let first = and_then(choices, |doc: Seq<char>| element_text(doc, 0));
    let message = and_then(first, |doc: Seq<char>| member_text(doc, "message"@));
    let content = and_then(message, |doc: Seq<char>| member_text(doc, "content"@));
    and_then(content, |doc: Seq<char>| string_value(doc))
}

/// The reply that the body of a response holds, if it holds one where it
/// is looked for.
pub fn completion_text(body: &str) -> (reply: Option<String>)
    ensures
        reply.deep_view() == completion_of(body@),
{
    let choices = match json_member(body, "choices") {
        Some(doc) => doc,
        None => { return None; },
    };
    let first = match json_element(choices.as_str(), 0) {
        Some(doc) => doc,
        None => { return None; },
    };
    let message = match json_member(first.as_str(), "message") {
        Some(doc) => doc,
        None => { return None; },
    };
    let content = match json_member(message.as_str(), "content") {
        Some(doc) => doc,
        None => { return None; },
    };
    json_string(content.as_str())
}

/// How sending a request ended.
#[derive(Clone, Debug, PartialEq, Eq)]
pub enum Outcome {
    /// A response came, with this body.
    Body(String),
    /// A response came, but its body could not be read; why.
    Unreadable(String),
    /// No response came; why.
    Failed(String),
}

/// What an outcome holds.
pub ghost enum OutcomeView {
    Body(Seq<char>),
    Unreadable(Seq<char>),
    Failed(Seq<char>),
}

impl View for Outcome {
    type V = OutcomeView;

    open spec fn view(&self) -> OutcomeView {
        match self {
            Outcome::Body(body) => OutcomeView::Body(body@),
            Outcome::Unreadable(why) => OutcomeView::Unreadable(why@),
            Outcome::Failed(why) => OutcomeView::Failed(why@),
        }
    }
}

/// What the system says of a response that holds no reply where it is
/// looked for.
pub open spec fn no_reply_text() -> Seq<char> {
    "响应解析错误: 响应中没有 choices[0].message.content"@
}

/// What the system says of a response whose body could not be read.
pub open spec fn unreadable_text(why: Seq<char>) -> Seq<char> {
    "响应解析错误: "@ + why
}

/// What the system says of a request that got no response.
pub open spec fn failed_text(why: Seq<char>) -> Seq<char> {
    "请求错误: "@ + why
}

/// The message that is delivered for what was looked up in the body of a
/// response: the reply as a message of the assistant, or a message of the
/// system where there is none.
pub open spec fn completion_message_of(reply: Option<Seq<char>>, stamp: Seq<char>) -> MessageView {
    match reply {
        Some(text) => MessageView { role: Role::Assistant, content: text, timestamp: stamp },
        None => MessageView { role: Role::System, content: no_reply_text(), timestamp: stamp },
    }
}

/// The one message that is delivered for an outcome.
pub open spec fn reply_of(outcome: OutcomeView, stamp: Seq<char>) -> MessageView {
    match outcome {
        OutcomeView::Body(body) => completion_message_of(completion_of(body), stamp),
        OutcomeView::Unreadable(why) => MessageView {
            role: Role::System,
            content: unreadable_text(why),
            timestamp: stamp,
        },
        OutcomeView::Failed(why) => MessageView {
            role: Role::System,
            content: failed_text(why),
            timestamp: stamp,
        },
    }
}

/// The message that is delivered for what was looked up in the body of a
/// response: the reply as a message of the assistant, or a message of the
/// system that says that the response holds none.
pub fn completion_message(reply: Option<String>, stamp: String) -> (message: Message)
    ensures
        message@ == completion_message_of(reply.deep_view(), stamp@),
{
    match reply {
        Some(text) => Message::new(Role::Assistant, text, stamp),
        None => Message::new(
            Role::System,
            "响应解析错误: 响应中没有 choices[0].message.content".to_string(),
            stamp,
        ),
    }
}

/// The one message that is delivered for an outcome, stamped `stamp`: the
/// reply that the body holds as a message of the assistant; else a message
/// of the system that names the failure.
pub fn reply_message_at(outcome: &Outcome, stamp: String) -> (message: Message)
    ensures
        message@ == reply_of(outcome@, stamp@),
        message.role == Role::Assistant <==> (outcome@ matches OutcomeView::Body(body)
            && completion_of(body) is Some),
{
    match outcome {
        Outcome::Body(body) => completion_message(completion_text(body.as_str()), stamp),
        Outcome::Unreadable(why) => Message::new(
            Role::System,
            join("响应解析错误: ", why.as_str()),
            stamp,
        ),
        Outcome::Failed(why) => Message::new(
            Role::System,
            join("请求错误: ", why.as_str()),
            stamp,
        ),
    }
}

/// The one message that is delivered for an outcome, stamped with the
/// time of day now.
pub fn reply_message(outcome: &Outcome) -> (message: Message)
    ensures
        exists|stamp: Seq<char>|
            is_time_of_day(stamp) && #[trigger] reply_of(outcome@, stamp) == message@,
        is_time_of_day(message@.timestamp),
{
    let stamp = timestamp();
    let message = reply_message_at(outcome, stamp);
    assert(reply_of(outcome@, message@.timestamp) == message@);
    message
}

} // verus!
