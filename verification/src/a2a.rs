//! A2A (Agent-to-Agent) protocol client.
//!
//! The request and the reply of the A2A JSON-RPC over HTTP protocol for
//! sending tasks to remote agents.
use vstd::prelude::*;
use vstd::string::StringExecFns;
use crate::json;
use crate::json::Json;
use crate::text;

verus! {

/// A2A client for communicating with a remote agent.
#[derive(Debug, Clone)]
pub struct A2aClient {
    /// Agent base URL, where requests are sent.
    pub url: String,
}

/// The request that sends a task.
pub open spec fn task_request_of(task: Seq<char>) -> Json {
    json::object(
        seq![
            ("jsonrpc"@, Json::Str("2.0"@)),
            ("method"@, Json::Str("tasks/send"@)),
            (
                "params"@,
                json::object(
                    seq![
                        (
                            "message"@,
                            json::object(
                                seq![
                                    ("role"@, Json::Str("user"@)),
                                    (
                                        "parts"@,
                                        Json::Arr(
                                            seq![
                                                json::object(
                                                    seq![
                                                        ("type"@, Json::Str("text"@)),
                                                        ("text"@, Json::Str(task)),
                                                    ],
                                                ),
                                            ],
                                        ),
                                    ),
                                ],
                            ),
                        ),
                    ],
                ),
            ),
            ("id"@, Json::UInt(1)),
        ],
    )
}

/// The text of the last message of a reply: that of its first part that has
/// one.
pub open spec fn reply_text(reply: Json) -> Option<Seq<char>> {
    match reply.member("result"@).member("messages"@).elements() {
        Some(messages) => if messages.len() == 0 {
            None
        } else {
            match messages.last().member("parts"@).elements() {
                Some(parts) => json::first_text(parts),
                None => None,
            }
        },
        None => None,
    }
}

/// What a reply document means: its text, else its error, else the whole
/// document.
pub open spec fn reply_meaning(reply: Json) -> Result<Seq<char>, Seq<char>> {
    match reply_text(reply) {
        Some(t) => Ok(t),
        None => match reply.member("error"@).member("message"@).string() {
            Some(e) => Err("A2A error: "@ + e),
            None => Ok(json::json_text(reply)),
        },
    }
}

/// Extracts the text content from an A2A response.
pub fn extract_a2a_text(value: &serde_json::Value) -> (r: Option<String>)
    ensures
        match r {
            Some(t) => reply_text(json::json_of(*value)) == Some(t@),
            None => reply_text(json::json_of(*value)) is None,
        },
{
    let messages = json::member_of(json::member_of(value, "result"), "messages");
    match json::elements_of(messages) {
        Some(list) => {
            if list.len() == 0 {
                return None;
            }
            let last = &list[list.len() - 1];
            assert(json::jsons_of(list@).last() == json::json_of(*last));
            match json::elements_of(json::member_of(last, "parts")) {
                Some(parts) => json::text_of_parts(parts),
                None => None,
            }
        },
        None => None,
    }
}

impl A2aClient {
    /// Creates a new A2A client for the given agent URL.
    pub fn new(url: &str) -> (r: Self)
        ensures
            r.url@ == text::without_trailing(url@, '/'),
    {
        A2aClient { url: text::trim_trailing(url, '/') }
    }

    /// The request that sends a task to the agent.
    pub fn task_request(task: &str) -> (r: serde_json::Value)
        ensures
            json::json_of(r) == task_request_of(task@),
    {
        let part = json::object2("type", json::json_string("text"), "text", json::json_string(task));
        let message = json::object2(
            "role",
            json::json_string("user"),
            "parts",
            json::array1(part),
        );
        json::object4(
            "jsonrpc",
            json::json_string("2.0"),
            "method",
            json::json_string("tasks/send"),
            "params",
            json::object1("message", message),
            "id",
            json::json_uint(1),
        )
    }

    /// What a reply document means: the text of the agent, or its error; a
    /// document with neither is returned as it is.
    pub fn read_document(value: &serde_json::Value) -> (r: Result<String, String>)
        ensures
            match r {
                Ok(t) => reply_meaning(json::json_of(*value)) == Ok::<Seq<char>, Seq<char>>(t@),
                Err(e) => reply_meaning(json::json_of(*value)) == Err::<Seq<char>, Seq<char>>(e@),
            },
    {
        if let Some(t) = extract_a2a_text(value) {
            return Ok(t);
        }
        let error = json::member_of(json::member_of(value, "error"), "message");
        if let Some(e) = json::string_of(error) {
            let mut s = "A2A error: ".to_owned();
            s.append(e);
            return Err(s);
        }
        Ok(json::value_text(value))
    }

    /// Reads the body of the reply to a task.
    pub fn read_reply(body: &str) -> (r: Result<String, String>)
        ensures
            match (r, json::parsed_json(body@)) {
                (Ok(t), Ok(j)) => reply_meaning(j) == Ok::<Seq<char>, Seq<char>>(t@),
                (Err(e), Ok(j)) => reply_meaning(j) == Err::<Seq<char>, Seq<char>>(e@),
                (Err(e), Err(_)) => e@ == "A2A: failed to parse response"@,
                (Ok(_), Err(_)) => false,
            },
    {
        match json::parse_json(body) {
            Ok(value) => Self::read_document(&value),
            Err(_) => Err("A2A: failed to parse response".to_owned()),
        }
    }
}

/// A task is sent as the text of a user's message.
pub proof fn law_tasks_are_sent_as_text(task: Seq<char>)
    ensures
        ({
            let request = task_request_of(task);
            let message = request.member("params"@).member("message"@);
            &&& request.member("jsonrpc"@) == Json::Str("2.0"@)
            &&& request.member("method"@) == Json::Str("tasks/send"@)
            &&& message.member("role"@) == Json::Str("user"@)
            &&& message.member("parts"@).element(0).member("type"@) == Json::Str("text"@)
            &&& message.member("parts"@).element(0).member("text"@) == Json::Str(task)
        }),
{
    reveal_strlit("jsonrpc");
    reveal_strlit("method");
    reveal_strlit("params");
    reveal_strlit("id");
    reveal_strlit("role");
    reveal_strlit("parts");
    reveal_strlit("type");
    reveal_strlit("text");
    assert("jsonrpc"@.len() == 7 && "method"@.len() == 6 && "params"@.len() == 6 && "id"@.len()
        == 2);
    assert("method"@[0] == 'm' && "params"@[0] == 'p');
    assert("role"@.len() == 4 && "parts"@.len() == 5);
    assert("type"@[1] == 'y' && "text"@[1] == 'e');
    let words = seq![("type"@, Json::Str("text"@)), ("text"@, Json::Str(task))];
    json::lemma_member(words, 0);
    json::lemma_member(words, 1);
    let said = seq![
        ("role"@, Json::Str("user"@)),
        ("parts"@, Json::Arr(seq![json::object(words)])),
    ];
    json::lemma_member(said, 0);
    json::lemma_member(said, 1);
    let params = seq![("message"@, json::object(said))];
    json::lemma_member(params, 0);
    let all = seq![
        ("jsonrpc"@, Json::Str("2.0"@)),
        ("method"@, Json::Str("tasks/send"@)),
        ("params"@, json::object(params)),
        ("id"@, Json::UInt(1)),
    ];
    json::lemma_member(all, 0);
    json::lemma_member(all, 1);
    json::lemma_member(all, 2);
}

/// The reply of an agent is the first text of its last message; without one
/// an error that it tells is the error, and anything else is shown whole.
pub proof fn law_agents_reply_in_their_last_message(
    reply: Map<Seq<char>, Json>,
    result: Map<Seq<char>, Json>,
    messages: Seq<Json>,
    last: Map<Seq<char>, Json>,
    parts: Seq<Json>,
    i: int,
)
    requires
        reply.contains_key("result"@) && reply["result"@] == Json::Obj(result),
        result.contains_key("messages"@) && result["messages"@] == Json::Arr(messages),
        messages.len() > 0 && messages.last() == Json::Obj(last),
        last.contains_key("parts"@) && last["parts"@] == Json::Arr(parts),
        0 <= i < parts.len(),
        forall|k: int| 0 <= k < i ==> (#[trigger] parts[k]).member("text"@).string() is None,
        parts[i].member("text"@) is Str,
    ensures
        reply_meaning(Json::Obj(reply)) == Ok::<Seq<char>, Seq<char>>(
            parts[i].member("text"@)->Str_0,
        ),
{
    json::law_first_text_comes_first(parts, i);
}

/// An error of an agent is an error, and says what the agent says.
pub proof fn law_agent_errors_are_told(
    reply: Map<Seq<char>, Json>,
    error: Map<Seq<char>, Json>,
    e: Seq<char>,
)
    requires
        !reply.contains_key("result"@),
    ensures
        reply.contains_key("error"@) && reply["error"@] == Json::Obj(error) && error.contains_key(
            "message"@,
        ) && error["message"@] == Json::Str(e) ==> (reply_meaning(Json::Obj(reply)) matches Err(m)
            && text::has_text(m, e)),
        !reply.contains_key("error"@) ==> reply_meaning(Json::Obj(reply)) == Ok::<
            Seq<char>,
            Seq<char>,
        >(json::json_text(Json::Obj(reply))),
{
    text::lemma_middle("A2A error: "@, e, Seq::empty());
    assert("A2A error: "@ + e + Seq::<char>::empty() =~= "A2A error: "@ + e);
}

} // verus!
