//! The service's protocol: JSON-RPC 2.0, one message to a line.

use super::tools;
use crate::json::{self, Doc, Fields, Items, Json};
use crate::text;
use vstd::prelude::*;

verus! {

/// What is done with a message.
#[derive(Debug)]
pub enum RpcAction {
    /// Nothing.
    Ignore,
    /// This is answered.
    Reply(Json),
    /// A picture is taken and answered.
    Screenshot { id: Json, path: String, height: u32 },
    /// A tool is called and answered.
    Tool { id: Json, name: String, arguments: Json },
}

/// The number of a request; null where it has none.
pub open spec fn id_of(req: Doc) -> Doc {
    match req.field("id"@) {
        Some(d) => d,
        None => Doc::Null,
    }
}

/// An answer that holds `result`.
pub open spec fn reply(id: Doc, result: Doc) -> Doc {
    Doc::Object(
        json::fields().push(("jsonrpc"@, Doc::Text("2.0"@))).push(("id"@, id)).push(
            ("result"@, result),
        ),
    )
}

fn reply_json(id: Json, result: Json) -> (r: Json)
    ensures
        r@ == reply(id@, result@),
{
    Fields::new().with("jsonrpc", json::string("2.0")).with("id", id).with("result", result).build()
}

/// An answer that refuses the method `method`.
pub open spec fn refusal(id: Doc, method: Seq<char>) -> Doc {
    Doc::Object(
        json::fields().push(("jsonrpc"@, Doc::Text("2.0"@))).push(("id"@, id)).push(
            (
                "error"@,
                Doc::Object(
                    json::fields().push(("code"@, json::number(-32601))).push(
                        ("message"@, Doc::Text("method not found: "@ + method)),
                    ),
                ),
            ),
        ),
    )
}

fn refusal_json(id: Json, method: &str) -> (r: Json)
    ensures
        r@ == refusal(id@, method@),
{
    let error = Fields::new().with("code", json::integer(-32601)).with(
        "message",
        json::string(text::cat2("method not found: ", method).as_str()),
    ).build();
    Fields::new().with("jsonrpc", json::string("2.0")).with("id", id).with("error", error).build()
}

/// What the service says of itself.
pub open spec fn server_doc() -> Doc {
    Doc::Object(
        json::fields().push(("protocolVersion"@, Doc::Text("2025-03-26"@))).push(
            (
                "capabilities"@,
                Doc::Object(json::fields().push(("tools"@, Doc::Object(json::fields())))),
            ),
        ).push(
            (
                "serverInfo"@,
                Doc::Object(
                    json::fields().push(("name"@, Doc::Text("aoe4world-mcp"@))).push(
                        ("version"@, Doc::Text("0.2.0"@)),
                    ),
                ),
            ),
        ),
    )
}

fn server_json() -> (r: Json)
    ensures
        r@ == server_doc(),
{
    let none = Fields::new().build();
    let capabilities = Fields::new().with("tools", none).build();
    let info = Fields::new().with("name", json::string("aoe4world-mcp")).with(
        "version",
        json::string("0.2.0"),
    ).build();
    Fields::new().with("protocolVersion", json::string("2025-03-26")).with(
        "capabilities",
        capabilities,
    ).with("serverInfo", info).build()
}

/// What a call of a tool comes to.
pub open spec fn outcome(content: Doc, failed: bool) -> Doc {
    Doc::Object(json::fields().push(("content"@, content)).push(("isError"@, Doc::Bool(failed))))
}

/// A text as the content of an answer.
pub open spec fn text_content(t: Seq<char>) -> Doc {
    Doc::Array(
        json::items().push(
            Doc::Object(
                json::fields().push(("type"@, Doc::Text("text"@))).push(("text"@, Doc::Text(t))),
            ),
        ),
    )
}

fn text_content_json(t: &str) -> (r: Json)
    ensures
        r@ == text_content(t@),
{
    let block = Fields::new().with("type", json::string("text")).with(
        "text",
        json::string(t),
    ).build();
    Items::new().with(block).build()
}

/// The answer to a call of a tool that tells a text, or fails with one.
pub fn tool_reply(id: Json, result: Result<String, String>) -> (r: Json)
    ensures
        r@ == reply(
            id@,
            match result {
                Ok(t) => outcome(text_content(t@), false),
                Err(t) => outcome(text_content(t@), true),
            },
        ),
{
    let result_json = match result {
        Ok(t) => Fields::new().with("content", text_content_json(t.as_str())).with(
            "isError",
            Json::Bool(false),
        ).build(),
        Err(t) => Fields::new().with("content", text_content_json(t.as_str())).with(
            "isError",
            Json::Bool(true),
        ).build(),
    };
    reply_json(id, result_json)
}

/// The answer to a call of a tool that shows a picture, or fails with a text.
pub fn picture_reply(id: Json, result: Result<Json, String>) -> (r: Json)
    ensures
        r@ == reply(
            id@,
            match result {
                Ok(content) => outcome(content@, false),
                Err(t) => outcome(text_content(t@), true),
            },
        ),
{
    match result {
        Ok(content) => {
            let done = Fields::new().with("content", content).with(
                "isError",
                Json::Bool(false),
            ).build();
            reply_json(id, done)
        },
        Err(t) => tool_reply(id, Err(t)),
    }
}

/// The last thirty-two bits of a number.
pub open spec fn low_bits(n: u64) -> u32 {
    (n as int % 0x1_0000_0000) as u32
}

/// The height that is asked for.
pub open spec fn asked_height(args: Doc) -> u32 {
    match args.natural_at("height"@) {
        Some(n) => low_bits(n),
        None => 2400,
    }
}

/// The member `key`, or an object without members.
pub open spec fn member_or_empty(d: Doc, key: Seq<char>) -> Doc {
    match d.field(key) {
        Some(v) => v,
        None => Doc::Object(json::fields()),
    }
}

fn member_or_empty_json(d: &Json, key: &str) -> (r: Json)
    ensures
        r@ == member_or_empty(d@, key@),
{
    match d.get(key) {
        Some(v) => v.duplicate(),
        None => Fields::new().build(),
    }
}

/// What is done with the message `req`.
pub open spec fn handled(req: Doc, r: RpcAction) -> bool {
    let method = req.text_or("method"@, ""@);
    let params = member_or_empty(req, "params"@);
    let args = member_or_empty(params, "arguments"@);
    let name = params.text_or("name"@, ""@);
    if method == "initialize"@ {
        r matches RpcAction::Reply(v) && v@ == reply(id_of(req), server_doc())
    } else if method == "tools/list"@ {
        r matches RpcAction::Reply(v) && v@ == reply(id_of(req), tools::tools_doc())
    } else if method == "tools/call"@ {
        if name == "screenshot_stats"@ {
            r matches RpcAction::Screenshot { id, path, height } && {
                &&& id@ == id_of(req)
                &&& path@ == args.text_or("path"@, ""@)
                &&& height == asked_height(args)
            }
        } else {
            r matches RpcAction::Tool { id, name: n, arguments } && {
                &&& id@ == id_of(req)
                &&& n@ == name
                &&& arguments@ == args
            }
        }
    } else if method == "notifications/initialized"@ || method == "notifications/cancelled"@ {
        r matches RpcAction::Ignore
    } else if method == "ping"@ {
        r matches RpcAction::Reply(v) && v@ == reply(id_of(req), Doc::Object(json::fields()))
    } else {
        r matches RpcAction::Reply(v) && v@ == refusal(id_of(req), method)
    }
}

/// What is done with a message.
pub fn handle(req: &Json) -> (r: RpcAction)
    ensures
        handled(req@, r),
{
    let id = match req.get("id") {
        Some(v) => v.duplicate(),
        None => Json::Null,
    };
    let method = req.text_or("method", "");
    let params = member_or_empty_json(req, "params");
    if text::same(method, "initialize") {
        RpcAction::Reply(reply_json(id, server_json()))
    } else if text::same(method, "tools/list") {
        RpcAction::Reply(reply_json(id, tools::tools_list()))
    } else if text::same(method, "tools/call") {
        let arguments = member_or_empty_json(&params, "arguments");
        let name = params.text_or("name", "");
        if text::same(name, "screenshot_stats") {
            let height: u32 = match arguments.natural_at("height") {
                Some(n) => (n % 0x1_0000_0000) as u32,
                None => 2400,
            };
            RpcAction::Screenshot { id, path: arguments.text_or("path", "").to_owned(), height }
        } else {
            RpcAction::Tool { id, name: name.to_owned(), arguments }
        }
    } else if text::same(method, "notifications/initialized") || text::same(
        method,
        "notifications/cancelled",
    ) {
        RpcAction::Ignore
    } else if text::same(method, "ping") {
        RpcAction::Reply(reply_json(id, Fields::new().build()))
    } else {
        RpcAction::Reply(refusal_json(id, method))
    }
}

proof fn lemma_names()
    ensures
        "jsonrpc"@ != "id"@,
        "jsonrpc"@ != "error"@,
        "id"@ != "error"@,
        "jsonrpc"@ != "result"@,
        "id"@ != "result"@,
{
    reveal_strlit("jsonrpc");
    reveal_strlit("id");
    reveal_strlit("error");
    reveal_strlit("result");
    assert("jsonrpc"@.len() != "id"@.len());
    assert("jsonrpc"@.len() != "error"@.len());
    assert("id"@.len() != "error"@.len());
    assert("jsonrpc"@.len() != "result"@.len());
    assert("id"@.len() != "result"@.len());
}

/// Every answer says which version of the protocol it speaks, and bears the number of the
/// request; an answer has a result and no error, a refusal an error and no result.
pub proof fn lemma_answers(id: Doc, result: Doc, method: Seq<char>)
    ensures
        reply(id, result).text_at("jsonrpc"@) == Some("2.0"@),
        reply(id, result).field("id"@) == Some(id),
        reply(id, result).field("result"@) == Some(result),
        reply(id, result).field("error"@) is None,
        refusal(id, method).text_at("jsonrpc"@) == Some("2.0"@),
        refusal(id, method).field("id"@) == Some(id),
        refusal(id, method).field("error"@) is Some,
        refusal(id, method).field("result"@) is None,
{
    lemma_names();
    let a = reply(id, result)->Object_0;
    let b = refusal(id, method)->Object_0;
    reveal_strlit("result");
    reveal_strlit("error");
    assert("result"@.len() != "error"@.len());
    reveal_with_fuel(json::member_from, 4);
}

/// Every request but a notification is answered, now or after what it asks for: where an answer
/// is given at once, it bears the request's number, and where a tool is to be called, the number
/// is kept for the answer.
pub proof fn lemma_requests_are_answered(req: Doc, r: RpcAction)
    requires
        handled(req, r),
        req.text_or("method"@, ""@) != "notifications/initialized"@,
        req.text_or("method"@, ""@) != "notifications/cancelled"@,
    ensures
        match r {
            RpcAction::Ignore => false,
            RpcAction::Reply(v) => v@.field("id"@) == Some(id_of(req)),
            RpcAction::Screenshot { id, path, height } => id@ == id_of(req),
            RpcAction::Tool { id, name, arguments } => id@ == id_of(req),
        },
{
    let method = req.text_or("method"@, ""@);
    let id = id_of(req);
    lemma_answers(id, server_doc(), method);
    lemma_answers(id, tools::tools_doc(), method);
    lemma_answers(id, Doc::Object(json::fields()), method);
}

/// The answer to a call says whether it failed, and holds what it brought.
pub proof fn lemma_tool_reply(id: Json, result: Result<String, String>, r: Json)
    requires
        call_ensures(tool_reply, (id, result), r),
    ensures
        r@.field("id"@) == Some(id@),
        r@.inner("result"@, "isError"@) == Some(Doc::Bool(result is Err)),
        r@.inner("result"@, "content"@) == Some(
            text_content(
                match result {
                    Ok(t) => t@,
                    Err(t) => t@,
                },
            ),
        ),
{
    reveal_strlit("jsonrpc");
    reveal_strlit("id");
    reveal_strlit("result");
    reveal_strlit("content");
    reveal_strlit("isError");
    assert("jsonrpc"@.len() == 7 && "id"@.len() == 2 && "result"@.len() == 6);
    assert("content"@[0] == 'c' && "isError"@[0] == 'i');
    let ms = r@->Object_0;
    json::lemma_field(ms, "id"@, 1);
    json::lemma_field(ms, "result"@, 2);
    let inner = ms[2].1->Object_0;
    json::lemma_field(inner, "content"@, 0);
    json::lemma_field(inner, "isError"@, 1);
}

/// What is done with a request: a picture is taken where one is asked for, of the height that is
/// asked for or of 2400; every other tool is called with what it is given; and a method that is not
/// known is refused with the code for that.
pub proof fn lemma_handle(req: &Json, r: RpcAction)
    requires
        call_ensures(handle, (req,), r),
    ensures
        ({
            let method = req@.text_or("method"@, ""@);
            let params = member_or_empty(req@, "params"@);
            let args = member_or_empty(params, "arguments"@);
            let name = params.text_or("name"@, ""@);
            &&& method == "tools/call"@ && name == "screenshot_stats"@ ==> (r matches
                RpcAction::Screenshot { id, path, height } && path@ == args.text_or("path"@, ""@)
                && (args.natural_at("height"@) is None ==> height == 2400) && (args.natural_at(
                "height"@,
            ) matches Some(n) ==> (n <= u32::MAX ==> height == n)))
            &&& method == "tools/call"@ && name != "screenshot_stats"@ ==> (r matches
                RpcAction::Tool { id, name: n, arguments } && n@ == name && arguments@ == args)
            &&& method == "initialize"@ || method == "tools/list"@ || method == "ping"@ ==> (
            r matches RpcAction::Reply(v) && v@.field("result"@) is Some)
            &&& method != "initialize"@ && method != "tools/list"@ && method != "tools/call"@
                && method != "notifications/initialized"@ && method != "notifications/cancelled"@
                && method != "ping"@ ==> (r matches RpcAction::Reply(v) && v@.field("error"@)
                is Some && v@.inner("error"@, "code"@) == Some(json::number(-32601)))
            &&& r is Ignore <==> method == "notifications/initialized"@ || method
                == "notifications/cancelled"@
        }),
{
    lemma_names();
    let method = req@.text_or("method"@, ""@);
    reveal_strlit("jsonrpc");
    reveal_strlit("id");
    reveal_strlit("result");
    reveal_strlit("error");
    reveal_strlit("code");
    reveal_strlit("message");
    assert("jsonrpc"@.len() == 7 && "id"@.len() == 2 && "result"@.len() == 6);
    assert("error"@.len() == 5 && "code"@.len() == 4 && "message"@.len() == 7);
    lemma_methods();
    match r {
        RpcAction::Reply(v) => {
            let ms = v@->Object_0;
            if method == "initialize"@ || method == "tools/list"@ || method == "ping"@ {
                json::lemma_field(ms, "result"@, 2);
            } else {
                json::lemma_field(ms, "error"@, 2);
                let inner = ms[2].1->Object_0;
                json::lemma_field(inner, "code"@, 0);
            }
        },
        _ => {},
    }
}

proof fn lemma_methods()
    ensures
        "initialize"@ != "tools/list"@,
        "initialize"@ != "tools/call"@,
        "initialize"@ != "ping"@,
        "initialize"@ != "notifications/initialized"@,
        "initialize"@ != "notifications/cancelled"@,
        "tools/list"@ != "tools/call"@,
        "tools/list"@ != "ping"@,
        "tools/list"@ != "notifications/initialized"@,
        "tools/list"@ != "notifications/cancelled"@,
        "tools/call"@ != "ping"@,
        "tools/call"@ != "notifications/initialized"@,
        "tools/call"@ != "notifications/cancelled"@,
        "ping"@ != "notifications/initialized"@,
        "ping"@ != "notifications/cancelled"@,
{
    reveal_strlit("initialize");
    reveal_strlit("tools/list");
    reveal_strlit("tools/call");
    reveal_strlit("ping");
    reveal_strlit("notifications/initialized");
    reveal_strlit("notifications/cancelled");
    assert("initialize"@.len() == 10 && "initialize"@[0] == 'i');
    assert("tools/list"@.len() == 10 && "tools/list"@[0] == 't' && "tools/list"@[6] == 'l');
    assert("tools/call"@.len() == 10 && "tools/call"@[6] == 'c');
    assert("ping"@.len() == 4);
    assert("notifications/initialized"@.len() == 25);
    assert("notifications/cancelled"@.len() == 23);
}

}
