//! MCP (Model Context Protocol) client.
//!
//! The requests and replies of an MCP server that is spoken to line by line,
//! and the results of its tools.
use vstd::prelude::*;
use vstd::string::StringExecFns;
use crate::json;
use crate::json::Json;
use crate::text;

verus! {

/// A tool exposed by an MCP server.
#[allow(non_snake_case)]
#[derive(Debug, Clone)]
pub struct McpTool {
    /// Tool name.
    pub name: String,
    /// Human-readable description.
    pub description: String,
    /// JSON Schema for tool arguments.
    pub inputSchema: serde_json::Value,
}

/// Result from calling an MCP tool.
#[allow(non_snake_case)]
#[derive(Debug, Clone)]
pub struct McpToolResult {
    /// Content blocks returned by the tool.
    pub content: Vec<McpContent>,
    /// Whether the result is an error.
    pub isError: bool,
}

/// Content block within an MCP tool result.
#[allow(non_snake_case)]
#[derive(Debug, Clone)]
pub enum McpContent {
    /// Plain text content.
    Text {
        /// The text content.
        text: String,
    },
    /// A resource reference.
    Resource {
        /// The resource descriptor.
        resource: McpResource,
    },
    /// Base64-encoded image.
    Image {
        /// Base64-encoded image data.
        data: String,
        /// MIME type (e.g. image/png).
        mimeType: String,
    },
}

/// Resource descriptor from an MCP response.
#[allow(non_snake_case)]
#[derive(Debug, Clone)]
pub struct McpResource {
    /// Resource URI.
    pub uri: String,
    /// MIME type.
    pub mimeType: String,
}

/// How a content block is shown.
pub open spec fn block_text(block: McpContent) -> Seq<char> {
    match block {
        McpContent::Text { text } => text@,
        McpContent::Resource { resource } => "[resource: "@ + resource.uri@ + "]"@,
        McpContent::Image { data, mimeType } => "[image: "@ + mimeType@ + ", "@ + text::dec(
            text::byte_len(data@),
        ) + " bytes]"@,
    }
}

/// How content blocks are shown: one to a line.
pub open spec fn blocks_text(blocks: Seq<McpContent>) -> Seq<char>
    decreases blocks.len(),
{
    if blocks.len() == 0 {
        Seq::empty()
    } else if blocks.len() == 1 {
        block_text(blocks[0])
    } else {
        blocks_text(blocks.drop_last()) + "\n"@ + block_text(blocks.last())
    }
}

/// How a content block is shown.
fn show_block(block: &McpContent) -> (r: String)
    ensures
        r@ == block_text(*block),
{
    match block {
        McpContent::Text { text } => text.clone(),
        McpContent::Resource { resource } => {
            let mut s = "[resource: ".to_owned();
            s.append(resource.uri.as_str());
            s.append("]");
            s
        },
        McpContent::Image { data, mimeType } => {
            let mut s = "[image: ".to_owned();
            s.append(mimeType.as_str());
            s.append(", ");
            s.append(text::decimal(text::byte_count(data.as_str()) as u128).as_str());
            s.append(" bytes]");
            s
        },
    }
}

impl McpToolResult {
    /// The result as text: its content blocks, one to a line.
    pub fn to_text(&self) -> (r: String)
        ensures
            r@ == blocks_text(self.content@),
    {
        let mut out = String::new();
        let mut i: usize = 0;
        assert(self.content@.take(0) =~= Seq::<McpContent>::empty());
        while i < self.content.len()
            invariant
                i <= self.content@.len(),
                out@ == blocks_text(self.content@.take(i as int)),
            decreases self.content@.len() - i,
        {
            assert(self.content@.take(i + 1).drop_last() =~= self.content@.take(i as int));
            if i == 0 {
                out = show_block(&self.content[0]);
            } else {
                out.append("\n");
                out.append(show_block(&self.content[i]).as_str());
            }
            i += 1;
        }
        assert(self.content@.take(i as int) =~= self.content@);
        out
    }
}

/// The request that opens a session.
pub open spec fn initialize_of() -> Json {
    json::object(
        seq![
            ("jsonrpc"@, Json::Str("2.0"@)),
            ("method"@, Json::Str("initialize"@)),
            (
                "params"@,
                json::object(
                    seq![
                        ("protocolVersion"@, Json::Str("2024-11-05"@)),
                        ("capabilities"@, json::object(Seq::empty())),
                        (
                            "clientInfo"@,
                            json::object(
                                seq![
                                    ("name"@, Json::Str("llm-browser-testkit"@)),
                                    ("version"@, Json::Str("0.1.2"@)),
                                ],
                            ),
                        ),
                    ],
                ),
            ),
            ("id"@, Json::UInt(0)),
        ],
    )
}

/// The request that opens a session.
pub fn initialize_request() -> (r: serde_json::Value)
    ensures
        json::json_of(r) == initialize_of(),
{
    let none: Vec<(String, serde_json::Value)> = Vec::new();
    assert(json::entries_of(none@) =~= Seq::empty());
    let client = json::object2(
        "name",
        json::json_string("llm-browser-testkit"),
        "version",
        json::json_string("0.1.2"),
    );
    let params = json::object3(
        "protocolVersion",
        json::json_string("2024-11-05"),
        "capabilities",
        json::json_object(none),
        "clientInfo",
        client,
    );
    json::object4(
        "jsonrpc",
        json::json_string("2.0"),
        "method",
        json::json_string("initialize"),
        "params",
        params,
        "id",
        json::json_uint(0),
    )
}

/// The notification that the session is open.
pub fn initialized_notification() -> (r: serde_json::Value)
    ensures
        json::json_of(r) == json::object(
            seq![
                ("jsonrpc"@, Json::Str("2.0"@)),
                ("method"@, Json::Str("notifications/initialized"@)),
            ],
        ),
{
    json::object2(
        "jsonrpc",
        json::json_string("2.0"),
        "method",
        json::json_string("notifications/initialized"),
    )
}

/// The request that lists the tools of the server.
pub fn list_tools_request() -> (r: serde_json::Value)
    ensures
        json::json_of(r) == json::object(
            seq![
                ("jsonrpc"@, Json::Str("2.0"@)),
                ("method"@, Json::Str("tools/list"@)),
                ("id"@, Json::UInt(0)),
            ],
        ),
{
    json::object3(
        "jsonrpc",
        json::json_string("2.0"),
        "method",
        json::json_string("tools/list"),
        "id",
        json::json_uint(0),
    )
}

/// The request that calls a tool. `null` arguments are left out.
pub open spec fn call_of(tool: Seq<char>, args: Json) -> Json {
    json::object(
        seq![
            ("jsonrpc"@, Json::Str("2.0"@)),
            ("method"@, Json::Str("tools/call"@)),
            (
                "params"@,
                if args is Null {
                    json::object(seq![("name"@, Json::Str(tool))])
                } else {
                    json::object(seq![("name"@, Json::Str(tool)), ("arguments"@, args)])
                },
            ),
            ("id"@, Json::UInt(0)),
        ],
    )
}

/// The request that calls a tool.
pub fn call_tool_request(tool_name: &str, args: &serde_json::Value) -> (r: serde_json::Value)
    ensures
        json::json_of(r) == call_of(tool_name@, json::json_of(*args)),
{
    let params = if json::is_null(args) {
        json::object1("name", json::json_string(tool_name))
    } else {
        json::object2("name", json::json_string(tool_name), "arguments", args.clone())
    };
    json::object4(
        "jsonrpc",
        json::json_string("2.0"),
        "method",
        json::json_string("tools/call"),
        "params",
        params,
        "id",
        json::json_uint(0),
    )
}

/// The line that carries a request.
pub fn request_line(request: &serde_json::Value) -> (r: String)
    ensures
        r@ == json::json_text(json::json_of(*request)) + "\n"@,
        text::is_line(r@),
{
    let mut line = json::value_text(request);
    proof {
        text::lemma_line(line@);
    }
    line.append("\n");
    line
}

/// What a reply document means: the document, or the error that it reports.
pub open spec fn reply_error(reply: Json) -> Option<Seq<char>> {
    match reply.member("error"@).member("message"@).string() {
        Some(e) => Some("MCP error: "@ + e),
        None => None,
    }
}

/// Reads a reply line.
pub fn read_reply(line: &str) -> (r: Result<serde_json::Value, String>)
    ensures
        match (r, json::parsed_json(line@)) {
            (Ok(v), Ok(j)) => json::json_of(v) == j && reply_error(j) is None,
            (Err(e), Ok(j)) => reply_error(j) == Some(e@),
            (Err(e), Err(_)) => e@ == "MCP: failed to parse JSON response"@,
            (Ok(_), Err(_)) => false,
        },
{
    let reply = match json::parse_json(line) {
        Ok(v) => v,
        Err(_) => {
            return Err("MCP: failed to parse JSON response".to_owned());
        },
    };
    let error = json::member_of(json::member_of(&reply, "error"), "message");
    if let Some(e) = json::string_of(error) {
        let mut s = "MCP error: ".to_owned();
        s.append(e);
        return Err(s);
    }
    Ok(reply)
}

/// A tool is called by its name, with the arguments where there are any.
pub proof fn law_tools_are_called_by_name(tool: Seq<char>, args: Json)
    ensures
        ({
            let request = call_of(tool, args);
            &&& request.member("jsonrpc"@) == Json::Str("2.0"@)
            &&& request.member("method"@) == Json::Str("tools/call"@)
            &&& request.member("params"@).member("name"@) == Json::Str(tool)
            &&& request.member("params"@).member("arguments"@) == args
            &&& request.member("id"@) == Json::UInt(0)
        }),
{
    reveal_strlit("jsonrpc");
    reveal_strlit("method");
    reveal_strlit("params");
    reveal_strlit("id");
    reveal_strlit("name");
    reveal_strlit("arguments");
    assert("jsonrpc"@.len() == 7 && "method"@.len() == 6 && "params"@.len() == 6 && "id"@.len()
        == 2);
    assert("method"@[0] == 'm' && "params"@[0] == 'p');
    assert("name"@.len() == 4 && "arguments"@.len() == 9);
    let bare = seq![("name"@, Json::Str(tool))];
    let full = seq![("name"@, Json::Str(tool)), ("arguments"@, args)];
    json::lemma_member(bare, 0);
    json::law_members_are_the_entries(bare, "arguments"@);
    json::lemma_member(full, 0);
    json::lemma_member(full, 1);
    let params = if args is Null {
        json::object(bare)
    } else {
        json::object(full)
    };
    let all = seq![
        ("jsonrpc"@, Json::Str("2.0"@)),
        ("method"@, Json::Str("tools/call"@)),
        ("params"@, params),
        ("id"@, Json::UInt(0)),
    ];
    json::lemma_member(all, 0);
    json::lemma_member(all, 1);
    json::lemma_member(all, 2);
    json::lemma_member(all, 3);
}

/// The text of a result has a line for each of its blocks, in their order: a
/// text as it is, a resource by its address, a picture by its kind.
pub proof fn law_blocks_are_shown_in_order(blocks: Seq<McpContent>, block: McpContent)
    ensures
        blocks_text(Seq::empty()).len() == 0,
        block matches McpContent::Text { text } ==> block_text(block) == text@,
        block matches McpContent::Resource { resource } ==> text::has_text(
            block_text(block),
            resource.uri@,
        ),
        block matches McpContent::Image { mimeType, .. } ==> text::has_text(
            block_text(block),
            mimeType@,
        ),
        blocks.len() == 0 ==> blocks_text(blocks.push(block)) == block_text(block),
        blocks.len() > 0 ==> blocks_text(blocks.push(block)) == blocks_text(blocks) + seq!['\n']
            + block_text(block),
{
    reveal_strlit("\n");
    assert("\n"@ =~= seq!['\n']);
    assert(blocks.push(block).drop_last() =~= blocks);
    match block {
        McpContent::Text { text } => {},
        McpContent::Resource { resource } => {
            text::lemma_middle("[resource: "@, resource.uri@, "]"@);
        },
        McpContent::Image { data, mimeType } => {
            let rest = ", "@ + text::dec(text::byte_len(data@)) + " bytes]"@;
            text::lemma_middle("[image: "@, mimeType@, rest);
            assert("[image: "@ + mimeType@ + rest =~= block_text(block));
        },
    }
}

/// A reply with an error that says something is an error, and says it; any
/// other is none.
pub proof fn law_errors_of_servers_are_told(
    reply: Map<Seq<char>, Json>,
    error: Map<Seq<char>, Json>,
    e: Seq<char>,
)
    ensures
        reply.contains_key("error"@) && reply["error"@] == Json::Obj(error) && error.contains_key(
            "message"@,
        ) && error["message"@] == Json::Str(e) ==> (reply_error(Json::Obj(reply)) matches Some(m)
            && text::has_text(m, e)),
        !reply.contains_key("error"@) ==> reply_error(Json::Obj(reply)) is None,
{
    text::lemma_middle("MCP error: "@, e, Seq::empty());
    assert("MCP error: "@ + e + Seq::<char>::empty() =~= "MCP error: "@ + e);
}

/// A session begins by naming the protocol and the client.
pub proof fn law_sessions_begin_with_the_protocol()
    ensures
        ({
            let request = initialize_of();
            let params = request.member("params"@);
            &&& request.member("jsonrpc"@) == Json::Str("2.0"@)
            &&& request.member("method"@) == Json::Str("initialize"@)
            &&& request.member("id"@) == Json::UInt(0)
            &&& params.member("protocolVersion"@) == Json::Str("2024-11-05"@)
            &&& params.member("clientInfo"@).member("name"@) == Json::Str("llm-browser-testkit"@)
        }),
{
    reveal_strlit("jsonrpc");
    reveal_strlit("method");
    reveal_strlit("params");
    reveal_strlit("id");
    reveal_strlit("name");
    reveal_strlit("version");
    reveal_strlit("protocolVersion");
    reveal_strlit("capabilities");
    reveal_strlit("clientInfo");
    assert("jsonrpc"@.len() == 7 && "method"@.len() == 6 && "params"@.len() == 6 && "id"@.len()
        == 2);
    assert("method"@[0] == 'm' && "params"@[0] == 'p');
    assert("name"@.len() == 4 && "version"@.len() == 7);
    assert("protocolVersion"@.len() == 15 && "capabilities"@.len() == 12 && "clientInfo"@.len()
        == 10);
    let info = seq![
        ("name"@, Json::Str("llm-browser-testkit"@)),
        ("version"@, Json::Str("0.1.2"@)),
    ];
    json::lemma_member(info, 0);
    let params = seq![
        ("protocolVersion"@, Json::Str("2024-11-05"@)),
        ("capabilities"@, json::object(Seq::empty())),
        ("clientInfo"@, json::object(info)),
    ];
    json::lemma_member(params, 0);
    json::lemma_member(params, 2);
    let all = seq![
        ("jsonrpc"@, Json::Str("2.0"@)),
        ("method"@, Json::Str("initialize"@)),
        ("params"@, json::object(params)),
        ("id"@, Json::UInt(0)),
    ];
    json::lemma_member(all, 0);
    json::lemma_member(all, 1);
    json::lemma_member(all, 2);
    json::lemma_member(all, 3);
}

} // verus!
