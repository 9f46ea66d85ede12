//! A2A server — exposes the framework as an A2A agent.
//!
//! Answers A2A JSON-RPC `tasks/send` requests. Each task is recorded and
//! acknowledged.
use vstd::prelude::*;
use vstd::string::StringExecFns;
use crate::a2a;
use crate::json;
use crate::json::Json;
use crate::text;

verus! {

/// Shared state for the A2A server.
pub struct A2aServerState {
    /// Accumulated results from executed tasks.
    pub results: Vec<String>,
}

impl Default for A2aServerState {
    fn default() -> (r: Self)
        ensures
            r.results@.len() == 0,
    {
        A2aServerState { results: Vec::new() }
    }
}

/// The answer to an HTTP request.
pub struct HttpReply {
    /// HTTP status.
    pub status: u16,
    /// Whether the body is JSON and says so in its content type.
    pub json: bool,
    /// The body.
    pub body: String,
}

/// The task of `tasks/send` parameters: the first text among its parts.
pub open spec fn task_text(params: Json) -> Seq<char> {
    match params.member("message"@).member("parts"@).elements() {
        Some(parts) => match json::first_text(parts) {
            Some(t) => t,
            None => "empty task"@,
        },
        None => "empty task"@,
    }
}

/// The JSON-RPC error document.
pub open spec fn error_document(code: int, message: Seq<char>, id: Json) -> Json {
    json::object(
        seq![
            ("jsonrpc"@, Json::Str("2.0"@)),
            (
                "error"@,
                json::object(
                    seq![
                        ("code"@, json::whole_number(code as i64)),
                        ("message"@, Json::Str(message)),
                    ],
                ),
            ),
            ("id"@, id),
        ],
    )
}

/// The document that acknowledges a task.
pub open spec fn acknowledgement(task: Seq<char>, id: Json) -> Json {
    json::object(
        seq![
            ("jsonrpc"@, Json::Str("2.0"@)),
            (
                "result"@,
                json::object(
                    seq![
                        ("id"@, Json::Str("task-1"@)),
                        (
                            "messages"@,
                            Json::Arr(
                                seq![
                                    json::object(
                                        seq![
                                            (
                                                "parts"@,
                                                Json::Arr(
                                                    seq![
                                                        json::object(
                                                            seq![
                                                                ("type"@, Json::Str("text"@)),
                                                                (
                                                                    "text"@,
                                                                    Json::Str(
                                                                        "Acknowledged: "@ + task,
                                                                    ),
                                                                ),
                                                            ],
                                                        ),
                                                    ],
                                                ),
                                            ),
                                        ],
                                    ),
                                ],
                            ),
                        ),
                    ],
                ),
            ),
            ("id"@, id),
        ],
    )
}

/// The reply that holds a JSON document.
pub open spec fn json_reply(r: HttpReply, document: Json) -> bool {
    r.status == 200 && r.json && r.body@ == json::json_text(document)
}

/// The method that a request document asks for.
pub open spec fn method_of(request: Json) -> Seq<char> {
    match request.member("method"@).string() {
        Some(m) => m,
        None => Seq::empty(),
    }
}

/// The reply to a request document, and the results after it.
pub open spec fn answers(
    request: Json,
    before: Seq<Seq<char>>,
    after: Seq<Seq<char>>,
    r: HttpReply,
) -> bool {
    if method_of(request) == "tasks/send"@ {
        let task = task_text(request.member("params"@));
        &&& after == before.push("task received: "@ + task)
        &&& json_reply(r, acknowledgement(task, request.member("id"@)))
    } else {
        &&& after == before
        &&& json_reply(
            r,
            error_document(
                -32601,
                "Method not found: "@ + method_of(request),
                request.member("id"@),
            ),
        )
    }
}

/// Parses the task text from A2A `tasks/send` parameters.
pub fn parse_task_text(params: &serde_json::Value) -> (r: String)
    ensures
        r@ == task_text(json::json_of(*params)),
{
    let parts = json::member_of(json::member_of(params, "message"), "parts");
    match json::elements_of(parts) {
        Some(list) => match json::text_of_parts(list) {
            Some(t) => t,
            None => "empty task".to_owned(),
        },
        None => "empty task".to_owned(),
    }
}

/// The reply that reports a JSON-RPC error.
pub fn error_response(code: i32, message: &str, id: Option<serde_json::Value>) -> (r: HttpReply)
    ensures
        json_reply(
            r,
            error_document(
                code as int,
                message@,
                match id {
                    Some(v) => json::json_of(v),
                    None => Json::Null,
                },
            ),
        ),
{
    let id_value = match id {
        Some(v) => v,
        None => json::json_null(),
    };
    let error = json::object2(
        "code",
        json::json_int(code as i64),
        "message",
        json::json_string(message),
    );
    let document = json::object3(
        "jsonrpc",
        json::json_string("2.0"),
        "error",
        error,
        "id",
        id_value,
    );
    HttpReply { status: 200, json: true, body: json::value_text(&document) }
}

/// What becomes of a request: only what is posted is read, what cannot be read
/// is refused, and what is no JSON is answered as an error.
pub open spec fn handled(
    post: bool,
    body: Result<Vec<u8>, String>,
    before: Seq<Seq<char>>,
    after: Seq<Seq<char>>,
    r: HttpReply,
) -> bool {
    if !post {
        &&& after == before
        &&& r.status == 405 && !r.json && r.body@ == "Method Not Allowed"@
    } else {
        match body {
            Err(e) => {
                &&& after == before
                &&& r.status == 400 && !r.json && r.body@ == "Bad Request: "@ + e@
            },
            Ok(bytes) => match json::parsed_json_bytes(bytes@) {
                Err(e) => {
                    &&& after == before
                    &&& json_reply(r, error_document(-32700, "Parse error: "@ + e, Json::Null))
                },
                Ok(request) => answers(request, before, after, r),
            },
        }
    }
}

impl A2aServerState {
    /// Answers a request document.
    pub fn answer(&mut self, request: &serde_json::Value) -> (r: HttpReply)
        ensures
            answers(
                json::json_of(*request),
                text::views(old(self).results@),
                text::views(final(self).results@),
                r,
            ),
    {
        let method = match json::string_of(json::member_of(request, "method")) {
            Some(m) => m.to_owned(),
            None => String::new(),
        };
        assert(method@ =~= method_of(json::json_of(*request)));
        let id = json::member_of(request, "id").clone();
        if text::same_text(method.as_str(), "tasks/send") {
            let task = parse_task_text(json::member_of(request, "params"));
            let mut record = "task received: ".to_owned();
            record.append(task.as_str());
            let ghost before = text::views(self.results@);
            self.results.push(record);
            assert(text::views(self.results@) =~= before.push("task received: "@ + task@));
            let mut said = "Acknowledged: ".to_owned();
            said.append(task.as_str());
            let part = json::object2(
                "type",
                json::json_string("text"),
                "text",
                json::json_string(said.as_str()),
            );
            let message = json::object1("parts", json::array1(part));
            let result = json::object2(
                "id",
                json::json_string("task-1"),
                "messages",
                json::array1(message),
            );
            let document = json::object3(
                "jsonrpc",
                json::json_string("2.0"),
                "result",
                result,
                "id",
                id,
            );
            return HttpReply { status: 200, json: true, body: json::value_text(&document) };
        }
        let mut message = "Method not found: ".to_owned();
        message.append(method.as_str());
        error_response(-32601, message.as_str(), Some(id))
    }

    /// Answers an HTTP request: whether it is a POST, and its body or why it
    /// could not be read.
    pub fn handle_a2a_request(&mut self, post: bool, body: Result<Vec<u8>, String>) -> (r: HttpReply)
        ensures
            handled(
                post,
                body,
                text::views(old(self).results@),
                text::views(final(self).results@),
                r,
            ),
    {
        if !post {
            return HttpReply { status: 405, json: false, body: "Method Not Allowed".to_owned() };
        }
        let bytes = match body {
            Ok(b) => b,
            Err(e) => {
                let mut s = "Bad Request: ".to_owned();
                s.append(e.as_str());
                return HttpReply { status: 400, json: false, body: s };
            },
        };
        match json::parse_json_bytes(&bytes) {
            Ok(request) => self.answer(&request),
            Err(e) => {
                let mut s = "Parse error: ".to_owned();
                s.append(e.as_str());
                error_response(-32700, s.as_str(), None)
            },
        }
    }
}

/// The keys of the documents differ.
proof fn lemma_keys_differ()
    ensures
        "jsonrpc"@ != "method"@,
        "jsonrpc"@ != "params"@,
        "jsonrpc"@ != "result"@,
        "jsonrpc"@ != "id"@,
        "method"@ != "params"@,
        "method"@ != "id"@,
        "params"@ != "id"@,
        "result"@ != "id"@,
        "messages"@ != "id"@,
        "role"@ != "parts"@,
        "type"@ != "text"@,
{
    reveal_strlit("jsonrpc");
    reveal_strlit("method");
    reveal_strlit("params");
    reveal_strlit("result");
    reveal_strlit("messages");
    reveal_strlit("id");
    reveal_strlit("role");
    reveal_strlit("parts");
    reveal_strlit("type");
    reveal_strlit("text");
    assert("jsonrpc"@.len() == 7 && "method"@.len() == 6 && "params"@.len() == 6);
    assert("result"@.len() == 6 && "messages"@.len() == 8 && "id"@.len() == 2);
    assert("role"@.len() == 4 && "parts"@.len() == 5);
    assert("method"@[0] == 'm' && "params"@[0] == 'p');
    assert("type"@[1] == 'y' && "text"@[1] == 'e');
}

/// The text part of a message.
pub open spec fn text_part(said: Seq<char>) -> Json {
    json::object(seq![("type"@, Json::Str("text"@)), ("text"@, Json::Str(said))])
}

/// The first text of a list with one text part.
proof fn lemma_text_part(said: Seq<char>)
    ensures
        json::first_text(seq![text_part(said)]) == Some(said),
{
    lemma_keys_differ();
    json::lemma_member(seq![("type"@, Json::Str("text"@)), ("text"@, Json::Str(said))], 1);
}

/// A task that the client sends arrives at the server as it is, and what the
/// client reads of the reply is its acknowledgement.
pub proof fn law_tasks_are_acknowledged(
    task: Seq<char>,
    before: Seq<Seq<char>>,
    after: Seq<Seq<char>>,
    r: HttpReply,
)
    requires
        answers(a2a::task_request_of(task), before, after, r),
    ensures
        after == before.push("task received: "@ + task),
        exists|document: Json| #[trigger]
            json_reply(r, document) && a2a::reply_meaning(document) == Ok::<Seq<char>, Seq<char>>(
                "Acknowledged: "@ + task,
            ),
{
    lemma_keys_differ();
    let request = a2a::task_request_of(task);
    lemma_text_part(task);
    let message = json::object(
        seq![("role"@, Json::Str("user"@)), ("parts"@, Json::Arr(seq![text_part(task)]))],
    );
    json::lemma_member(
        seq![("role"@, Json::Str("user"@)), ("parts"@, Json::Arr(seq![text_part(task)]))],
        1,
    );
    json::lemma_member(seq![("message"@, message)], 0);
    let entries = seq![
        ("jsonrpc"@, Json::Str("2.0"@)),
        ("method"@, Json::Str("tasks/send"@)),
        ("params"@, json::object(seq![("message"@, message)])),
        ("id"@, Json::UInt(1)),
    ];
    json::lemma_member(entries, 1);
    json::lemma_member(entries, 2);
    assert(request == json::object(entries));
    assert(method_of(request) == "tasks/send"@);
    assert(task_text(request.member("params"@)) == task);

    let said = "Acknowledged: "@ + task;
    let id = request.member("id"@);
    let document = acknowledgement(task, id);
    lemma_text_part(said);
    let parts = json::object(seq![("parts"@, Json::Arr(seq![text_part(said)]))]);
    json::lemma_member(seq![("parts"@, Json::Arr(seq![text_part(said)]))], 0);
    let result = seq![("id"@, Json::Str("task-1"@)), ("messages"@, Json::Arr(seq![parts]))];
    json::lemma_member(result, 1);
    let reply = seq![
        ("jsonrpc"@, Json::Str("2.0"@)),
        ("result"@, json::object(result)),
        ("id"@, id),
    ];
    json::lemma_member(reply, 1);
    assert(document == json::object(reply));
    assert(document.member("result"@).member("messages"@).elements() == Some(seq![parts]));
    assert(json_reply(r, document));
}

/// A method that the server does not know is answered with an error that
/// names it and the request, and nothing is recorded.
pub proof fn law_unknown_methods_are_refused(
    request: Json,
    before: Seq<Seq<char>>,
    after: Seq<Seq<char>>,
    r: HttpReply,
)
    requires
        answers(request, before, after, r),
        request.member("method"@) != Json::Str("tasks/send"@),
    ensures
        after == before,
        exists|document: Json| #[trigger]
            json_reply(r, document) && document.member("id"@) == request.member("id"@)
                && document.member("error"@).member("code"@) == Json::Int(-32601i64) && (
            document.member("error"@).member("message"@) matches Json::Str(m) && text::has_text(
                m,
                method_of(request),
            )) && document.member("result"@) is Null,
{
    reveal_strlit("tasks/send");
    assert("tasks/send"@.len() == 10);
    assert(method_of(request) != "tasks/send"@);
    let said = "Method not found: "@ + method_of(request);
    let document = error_document(-32601, said, request.member("id"@));
    law_errors_are_documents(-32601i32, said, request.member("id"@));
    assert(json_reply(r, document));
    text::lemma_middle("Method not found: "@, method_of(request), Seq::empty());
    assert("Method not found: "@ + method_of(request) + Seq::<char>::empty() =~= said);
}

/// The document of an error holds its code, its message and the request that it
/// answers.
pub proof fn law_errors_are_documents(code: i32, message: Seq<char>, id: Json)
    ensures
        ({
            let d = error_document(code as int, message, id);
            &&& d.member("jsonrpc"@) == Json::Str("2.0"@)
            &&& d.member("id"@) == id
            &&& d.member("error"@).member("message"@) == Json::Str(message)
            &&& code < 0 ==> d.member("error"@).member("code"@) == Json::Int(code as i64)
            &&& code >= 0 ==> d.member("error"@).member("code"@) == Json::UInt(code as u64)
            &&& d.member("result"@) is Null
        }),
{
    reveal_strlit("jsonrpc");
    reveal_strlit("error");
    reveal_strlit("id");
    reveal_strlit("code");
    reveal_strlit("message");
    reveal_strlit("result");
    assert("jsonrpc"@.len() == 7 && "error"@.len() == 5 && "id"@.len() == 2 && "result"@.len() == 6);
    assert("code"@.len() == 4 && "message"@.len() == 7);
    let inner = seq![
        ("code"@, json::whole_number(code as i64)),
        ("message"@, Json::Str(message)),
    ];
    json::lemma_member(inner, 0);
    json::lemma_member(inner, 1);
    let all = seq![
        ("jsonrpc"@, Json::Str("2.0"@)),
        ("error"@, json::object(inner)),
        ("id"@, id),
    ];
    json::lemma_member(all, 0);
    json::lemma_member(all, 1);
    json::lemma_member(all, 2);
    json::law_members_are_the_entries(all, "result"@);
}

/// A task without text is taken as an empty task.
pub proof fn law_tasks_without_text_are_empty(params: Map<Seq<char>, Json>)
    requires
        !params.contains_key("message"@),
    ensures
        task_text(Json::Obj(params)) == "empty task"@,
{
}

/// Only a posted request is taken: any other is refused with its status, and so
/// is one that could not be read; neither leaves a record. What is read is
/// answered with success, even where the answer tells of an error.
pub proof fn law_only_posted_requests_are_taken(
    post: bool,
    body: Result<Vec<u8>, String>,
    before: Seq<Seq<char>>,
    after: Seq<Seq<char>>,
    r: HttpReply,
)
    requires
        handled(post, body, before, after, r),
    ensures
        !post ==> r.status == 405 && !r.json && after == before,
        post && body is Err ==> r.status == 400 && !r.json && after == before && text::has_text(
            r.body@,
            body->Err_0@,
        ),
        post && body is Ok ==> r.status == 200 && r.json,
        (post && (body matches Ok(bytes) && json::parsed_json_bytes(bytes@) is Err)) ==> after
            == before,
        after.len() <= before.len() + 1,
        after.take(before.len() as int) == before,
{
    if post && body is Err {
        let e = body->Err_0@;
        text::lemma_middle("Bad Request: "@, e, Seq::empty());
        assert("Bad Request: "@ + e + Seq::<char>::empty() =~= "Bad Request: "@ + e);
    }
    assert(before.take(before.len() as int) =~= before);
    assert(after.take(before.len() as int) =~= before);
}

} // verus!
