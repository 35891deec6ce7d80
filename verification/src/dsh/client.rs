//! Requests to the host and their answers.

use crate::json::{self, Doc, Fields, Items, Json};
use crate::text;
use vstd::prelude::*;

verus! {

/// Where the host is if nothing else is said.
pub const DEFAULT_BASE_URL: &'static str = "http://127.0.0.1:3080";

/// How long an answer may take if nothing else is said, in seconds.
pub const DEFAULT_TIMEOUT_SECS: u64 = 30;

/// Why the host cannot be talked to.
#[derive(Debug)]
pub enum DshError {
    /// The address is no HTTP address.
    BadBaseUrl,
    /// The address cannot be turned into one for events.
    InvalidBaseUrl,
    /// A session is wanted in two places.
    TwoPlaces,
    /// A session was made that has no name.
    NoSessionId,
    /// The host answered with another status than success.
    Status { method: String, status: String, body: String },
    /// The answer is not in an answer's envelope.
    InvalidEnvelope { method: String },
    /// The answer is that to another request.
    MismatchedId { method: String },
    /// The answer has no result.
    NoResult,
    /// The request failed.
    Failed { method: String, code: String, message: String },
    /// The stream of events reports an error.
    Stream { payload: String },
    /// An event holds none.
    NoEvent,
    /// There is no text in a reply.
    EmptyReply,
}

impl DshError {
    /// What is said of it.
    pub open spec fn said(self) -> Seq<char> {
        match self {
            DshError::BadBaseUrl => "DSH base URL must start with http:// or https://"@,
            DshError::InvalidBaseUrl => "invalid DSH base URL"@,
            DshError::TwoPlaces => "DSH session.create accepts cwd or workspaceId, not both"@,
            DshError::NoSessionId => "DSH session.create returned no sessionId"@,
            DshError::Status { method, status, body } => "DSH RPC "@ + method@
                + " returned HTTP "@ + status@ + ": "@ + body@,
            DshError::InvalidEnvelope { method } => "DSH RPC "@ + method@
                + " returned an invalid response envelope"@,
            DshError::MismatchedId { method } => "DSH RPC "@ + method@
                + " returned a mismatched rpcId"@,
            DshError::NoResult => "DSH response has no result"@,
            DshError::Failed { method, code, message } => "DSH RPC "@ + method@ + " failed: "@
                + code@ + ": "@ + message@,
            DshError::Stream { payload } => "DSH event stream error: "@ + payload@,
            DshError::NoEvent => "DSH session/event has no event"@,
            DshError::EmptyReply => "DSH returned an empty reply"@,
        }
    }

    /// What is said of it.
    pub fn message(&self) -> (r: String)
        ensures
            r@ == self.said(),
    {
        match self {
            DshError::BadBaseUrl => "DSH base URL must start with http:// or https://".to_owned(),
            DshError::InvalidBaseUrl => "invalid DSH base URL".to_owned(),
            DshError::TwoPlaces => "DSH session.create accepts cwd or workspaceId, not both".to_owned(),
            DshError::NoSessionId => "DSH session.create returned no sessionId".to_owned(),
            DshError::Status { method, status, body } => {
                let mut s = text::cat3("DSH RPC ", method.as_str(), " returned HTTP ");
                s.append(status.as_str());
                s.append(": ");
                s.append(body.as_str());
                s
            },
            DshError::InvalidEnvelope { method } => text::cat3(
                "DSH RPC ",
                method.as_str(),
                " returned an invalid response envelope",
            ),
            DshError::MismatchedId { method } => text::cat3(
                "DSH RPC ",
                method.as_str(),
                " returned a mismatched rpcId",
            ),
            DshError::NoResult => "DSH response has no result".to_owned(),
            DshError::Failed { method, code, message } => {
                let mut s = text::cat3("DSH RPC ", method.as_str(), " failed: ");
                s.append(code.as_str());
                s.append(": ");
                s.append(message.as_str());
                s
            },
            DshError::Stream { payload } => text::cat2(
                "DSH event stream error: ",
                payload.as_str(),
            ),
            DshError::NoEvent => "DSH session/event has no event".to_owned(),
            DshError::EmptyReply => "DSH returned an empty reply".to_owned(),
        }
    }
}

/// Whether an address is an HTTP address.
pub open spec fn is_http(url: Seq<char>) -> bool {
    text::begins(url, "http://"@) || text::begins(url, "https://"@)
}

/// The way to a host: its address, which has no slash at its end, and how long answers may take.
#[derive(Debug)]
pub struct DshClient {
    base_url: String,
    timeout_secs: u64,
}

impl DshClient {
    /// The host's address.
    pub closed spec fn address(self) -> Seq<char> {
        self.base_url@
    }

    /// How long answers may take, in seconds.
    pub closed spec fn patience(self) -> u64 {
        self.timeout_secs
    }

    /// The way to the host at an address.
    pub fn new(base_url: &str) -> (r: Result<DshClient, DshError>)
        ensures
            ({
                let url = text::without_trailing(base_url@, '/');
                if is_http(url) {
                    r matches Ok(c) && c.address() == url && c.patience() == DEFAULT_TIMEOUT_SECS
                } else {
                    r matches Err(DshError::BadBaseUrl)
                }
            }),
    {
        DshClient::with_timeout(base_url, DEFAULT_TIMEOUT_SECS)
    }

    /// The way to the host at an address, whose answers may take so many seconds.
    pub fn with_timeout(base_url: &str, timeout_secs: u64) -> (r: Result<DshClient, DshError>)
        ensures
            ({
                let url = text::without_trailing(base_url@, '/');
                if is_http(url) {
                    r matches Ok(c) && c.address() == url && c.patience() == timeout_secs
                } else {
                    r matches Err(DshError::BadBaseUrl)
                }
            }),
    {
        let base_url = text::trim_end_of(base_url, '/');
        if !(text::starts_with(base_url.as_str(), "http://") || text::starts_with(
            base_url.as_str(),
            "https://",
        )) {
            return Err(DshError::BadBaseUrl);
        }
        Ok(DshClient { base_url, timeout_secs })
    }

    /// The host's address.
    pub fn base_url(&self) -> (r: &str)
        ensures
            r@ == self.address(),
    {
        self.base_url.as_str()
    }

    /// How long answers may take, in seconds.
    pub fn timeout_secs(&self) -> (r: u64)
        ensures
            r == self.patience(),
    {
        self.timeout_secs
    }

    /// The address that a method is called at.
    pub fn method_url(&self, method: &str) -> (r: String)
        ensures
            r@ == self.address() + "/api/"@ + method@,
    {
        text::cat3(self.base_url.as_str(), "/api/", method)
    }

    /// The address that events come from.
    pub fn events_url(&self) -> (r: Result<String, DshError>)
        ensures
            socket_url(self.address(), "/api/events.mux"@, r),
    {
        websocket_url(self.base_url.as_str(), "/api/events.mux")
    }
}

/// The address of a host: the one that is given, the one of the environment, or the usual one.
pub fn choose_base_url(given: Option<&str>, environment: Option<&str>) -> (r: String)
    ensures
        r@ == match (given, environment) {
            (Some(u), _) => u@,
            (None, Some(u)) => u@,
            (None, None) => DEFAULT_BASE_URL@,
        },
{
    match given {
        Some(u) => u.to_owned(),
        None => match environment {
            Some(u) => u.to_owned(),
            None => DEFAULT_BASE_URL.to_owned(),
        },
    }
}

/// Whether `r` is the address for events at `path` of the host at `base`: secure where the host's
/// own address is.
pub open spec fn socket_url(base: Seq<char>, path: Seq<char>, r: Result<String, DshError>) -> bool {
    if text::begins(base, "https://"@) {
        r matches Ok(u) && u@ == "wss://"@ + base.skip("https://"@.len() as int) + path
    } else if text::begins(base, "http://"@) {
        r matches Ok(u) && u@ == "ws://"@ + base.skip("http://"@.len() as int) + path
    } else {
        r matches Err(DshError::InvalidBaseUrl)
    }
}

/// The address for events at `path` of the host at `base_url`.
pub fn websocket_url(base_url: &str, path: &str) -> (r: Result<String, DshError>)
    ensures
        socket_url(base_url@, path@, r),
{
    match text::strip_prefix(base_url, "https://") {
        Some(authority) => Ok(text::cat3("wss://", authority.as_str(), path)),
        None => match text::strip_prefix(base_url, "http://") {
            Some(authority) => Ok(text::cat3("ws://", authority.as_str(), path)),
            None => Err(DshError::InvalidBaseUrl),
        },
    }
}

/// The name of a request, from the number of the process and the time.
pub fn new_rpc_id(process: u32, nanos: u128) -> (r: String)
    ensures
        r@ == "nonoka-"@ + text::decimal(process as nat) + "-"@ + text::decimal(nanos as nat),
{
    text::cat4(
        "nonoka-",
        text::decimal_text(process as u128).as_str(),
        "-",
        text::decimal_text(nanos).as_str(),
    )
}

/// A request.
pub open spec fn request_doc(rpc_id: Seq<char>, method: Seq<char>, payload: Doc) -> Doc {
    Doc::Object(
        json::fields().push(("type"@, Doc::Text("client-request"@))).push(
            ("rpcId"@, Doc::Text(rpc_id)),
        ).push(("method"@, Doc::Text(method))).push(("payload"@, payload)),
    )
}

/// A request.
pub fn request(rpc_id: &str, method: &str, payload: Json) -> (r: Json)
    ensures
        r@ == request_doc(rpc_id@, method@, payload@),
{
    Fields::new().with("type", json::string("client-request")).with(
        "rpcId",
        json::string(rpc_id),
    ).with("method", json::string(method)).with("payload", payload).build()
}

/// The member `key`, or null.
pub open spec fn member_or_null(d: Doc, key: Seq<char>) -> Doc {
    match d.field(key) {
        Some(v) => v,
        None => Doc::Null,
    }
}

/// The member `key`, or null.
pub fn copy_member(d: &Json, key: &str) -> (r: Json)
    ensures
        r@ == member_or_null(d@, key@),
{
    match d.get(key) {
        Some(v) => v.duplicate(),
        None => Json::Null,
    }
}

/// Whether `r` is what the answer to a request says.
pub open spec fn answered(
    method: Seq<char>,
    rpc_id: Seq<char>,
    response: Doc,
    r: Result<Json, DshError>,
) -> bool {
    if response.text_at("type"@) != Some("server-response"@) {
        r matches Err(DshError::InvalidEnvelope { method: m }) && m@ == method
    } else if response.text_at("rpcId"@) != Some(rpc_id) {
        r matches Err(DshError::MismatchedId { method: m }) && m@ == method
    } else {
        match response.field("result"@) {
            None => r matches Err(DshError::NoResult),
            Some(result) => if result.truth_at("ok"@) == Some(true) {
                r matches Ok(v) && v@ == member_or_null(result, "value"@)
            } else {
                let error = member_or_null(result, "error"@);
                r matches Err(DshError::Failed { method: m, code, message }) && m@ == method
                    && code@ == error.text_or("code"@, "unknown"@) && message@ == error.text_or(
                    "message"@,
                    "unknown DSH error"@,
                )
            },
        }
    }
}

/// What the answer to a request says.
pub fn check_response(method: &str, rpc_id: &str, response: &Json) -> (r: Result<Json, DshError>)
    ensures
        answered(method@, rpc_id@, response@, r),
{
    let is_response = match response.text_at("type") {
        Some(t) => text::same(t, "server-response"),
        None => false,
    };
    if !is_response {
        return Err(DshError::InvalidEnvelope { method: method.to_owned() });
    }
    let is_ours = match response.text_at("rpcId") {
        Some(t) => text::same(t, rpc_id),
        None => false,
    };
    if !is_ours {
        return Err(DshError::MismatchedId { method: method.to_owned() });
    }
    match response.get("result") {
        None => Err(DshError::NoResult),
        Some(result) => {
            let ok = match result.truth_at("ok") {
                Some(b) => b,
                None => false,
            };
            if ok {
                Ok(copy_member(result, "value"))
            } else {
                let error = copy_member(result, "error");
                Err(
                    DshError::Failed {
                        method: method.to_owned(),
                        code: error.text_or("code", "unknown").to_owned(),
                        message: error.text_or("message", "unknown DSH error").to_owned(),
                    },
                )
            }
        },
    }
}

/// A session on the host.
#[derive(Debug)]
pub struct DshSession {
    pub session_id: String,
    pub workspace_id: Option<String>,
}

/// The members with one more text, if there is one.
pub open spec fn with_option(
    ms: Seq<(Seq<char>, Doc)>,
    key: Seq<char>,
    value: Option<Seq<char>>,
) -> Seq<(Seq<char>, Doc)> {
    match value {
        Some(v) => ms.push((key, Doc::Text(v))),
        None => ms,
    }
}

fn add_option(fields: Fields, key: &str, value: Option<&str>) -> (r: Fields)
    ensures
        r@ == with_option(fields@, key@, text::opt_str(value)),
{
    match value {
        Some(v) => fields.with(key, json::string(v)),
        None => fields,
    }
}

/// What a session is asked for with: a directory or a workspace, not both.
pub fn session_create_payload(
    cwd: Option<&str>,
    workspace_id: Option<&str>,
    agent_preset: Option<&str>,
) -> (r: Result<Json, DshError>)
    ensures
        if cwd is Some && workspace_id is Some {
            r matches Err(DshError::TwoPlaces)
        } else {
            r matches Ok(v) && v@ == Doc::Object(
                with_option(
                    with_option(
                        with_option(json::fields(), "cwd"@, text::opt_str(cwd)),
                        "workspaceId"@,
                        text::opt_str(workspace_id),
                    ),
                    "agentPreset"@,
                    text::opt_str(agent_preset),
                ),
            )
        },
{
    if cwd.is_some() && workspace_id.is_some() {
        return Err(DshError::TwoPlaces);
    }
    let fields = add_option(Fields::new(), "cwd", cwd);
    let fields = add_option(fields, "workspaceId", workspace_id);
    Ok(add_option(fields, "agentPreset", agent_preset).build())
}

/// The session that the host has made.
pub fn session_from_reply(value: &Json) -> (r: Result<DshSession, DshError>)
    ensures
        match value@.text_at("sessionId"@) {
            Some(id) => if id.len() > 0 {
                r matches Ok(s) && s.session_id@ == id && s.workspace_id is None
            } else {
                r matches Err(DshError::NoSessionId)
            },
            None => r matches Err(DshError::NoSessionId),
        },
{
    match value.text_at("sessionId") {
        Some(id) => {
            if id.is_empty() {
                Err(DshError::NoSessionId)
            } else {
                Ok(DshSession { session_id: id.to_owned(), workspace_id: None })
            }
        },
        None => Err(DshError::NoSessionId),
    }
}

/// A part of a prompt.
#[derive(Debug)]
pub enum DshContentBlock {
    Text { text: String },
    Image { media_type: String, data: String, name: Option<String> },
}

/// A prompt to a session.
#[derive(Debug)]
pub struct DshPrompt {
    pub session_id: String,
    pub mode: String,
    pub content: Vec<DshContentBlock>,
}

impl DshContentBlock {
    /// The part as it is sent.
    pub open spec fn doc(self) -> Doc {
        match self {
            DshContentBlock::Text { text } => Doc::Object(
                json::fields().push(("type"@, Doc::Text("text"@))).push(("text"@, Doc::Text(text@))),
            ),
            DshContentBlock::Image { media_type, data, name } => Doc::Object(
                with_option(
                    json::fields().push(("type"@, Doc::Text("image"@))).push(
                        ("mediaType"@, Doc::Text(media_type@)),
                    ).push(("data"@, Doc::Text(data@))),
                    "name"@,
                    text::opt(name),
                ),
            ),
        }
    }

    /// The part as it is sent.
    pub fn to_json(&self) -> (r: Json)
        ensures
            r@ == self.doc(),
    {
        match self {
            DshContentBlock::Text { text } => Fields::new().with("type", json::string("text")).with(
                "text",
                json::string(text.as_str()),
            ).build(),
            DshContentBlock::Image { media_type, data, name } => {
                let fields = Fields::new().with("type", json::string("image")).with(
                    "mediaType",
                    json::string(media_type.as_str()),
                ).with("data", json::string(data.as_str()));
                match name {
                    Some(n) => fields.with("name", json::string(n.as_str())).build(),
                    None => fields.build(),
                }
            },
        }
    }
}

/// The parts of a prompt as they are sent.
pub open spec fn content_docs(v: Seq<DshContentBlock>) -> Seq<Doc> {
    v.map_values(|b: DshContentBlock| b.doc())
}

impl DshPrompt {
    /// The prompt as it is sent.
    pub open spec fn doc(self) -> Doc {
        Doc::Object(
            json::fields().push(("sessionId"@, Doc::Text(self.session_id@))).push(
                ("mode"@, Doc::Text(self.mode@)),
            ).push(("content"@, Doc::Array(content_docs(self.content@)))),
        )
    }

    /// The prompt as it is sent.
    pub fn to_json(&self) -> (r: Json)
        ensures
            r@ == self.doc(),
    {
        let mut items = Items::new();
        let ghost all = content_docs(self.content@);
        let mut i: usize = 0;
        assert(all.take(0) =~= json::items());
        while i < self.content.len()
            invariant
                i <= self.content@.len(),
                all == content_docs(self.content@),
                items@ == all.take(i as int),
            decreases self.content@.len() - i,
        {
            items = items.with(self.content[i].to_json());
            assert(all.take(i + 1) =~= all.take(i as int).push(all[i as int]));
            i = i + 1;
        }
        assert(all.take(all.len() as int) =~= all);
        Fields::new().with("sessionId", json::string(self.session_id.as_str())).with(
            "mode",
            json::string(self.mode.as_str()),
        ).with("content", items.build()).build()
    }

    /// A prompt of one text, which waits for its turn.
    pub fn queued_text(session_id: &str, message: &str) -> (r: DshPrompt)
        ensures
            r.session_id@ == session_id@,
            r.mode@ == "queue"@,
            r.content@.len() == 1,
            r.content@[0] matches DshContentBlock::Text { text } && text@ == message@,
    {
        let mut content: Vec<DshContentBlock> = Vec::new();
        content.push(DshContentBlock::Text { text: message.to_owned() });
        DshPrompt { session_id: session_id.to_owned(), mode: "queue".to_owned(), content }
    }
}

/// Refuses a reply without text.
pub fn ensure_result_is_not_empty(reply: &str) -> (r: Result<(), DshError>)
    ensures
        if text::trimmed(reply@).len() == 0 {
            r matches Err(DshError::EmptyReply)
        } else {
            r is Ok
        },
{
    if text::trim(reply).as_str().is_empty() {
        Err(DshError::EmptyReply)
    } else {
        Ok(())
    }
}

/// An answer is taken only where it is one, is the one to the request, and says that all went well.
pub proof fn lemma_answered(
    method: Seq<char>,
    rpc_id: Seq<char>,
    response: Doc,
    r: Result<Json, DshError>,
)
    requires
        answered(method, rpc_id, response, r),
    ensures
        r is Ok <==> response.text_at("type"@) == Some("server-response"@) && response.text_at(
            "rpcId"@,
        ) == Some(rpc_id) && (response.field("result"@) matches Some(result) && result.truth_at(
            "ok"@,
        ) == Some(true)),
        r matches Ok(v) ==> response.field("result"@) matches Some(result) && (match result.field(
            "value"@,
        ) {
            Some(d) => v@ == d,
            None => v@ == Doc::Null,
        }),
        r matches Err(DshError::MismatchedId { method: m }) ==> response.text_at("rpcId"@) != Some(
            rpc_id,
        ),
{
}

/// Events come over the address of the same host, in the clear exactly where requests do.
pub proof fn lemma_socket_url(rest: Seq<char>, path: Seq<char>, r: Result<String, DshError>)
    ensures
        socket_url("https://"@ + rest, path, r) ==> (r matches Ok(u) && u@ == "wss://"@ + rest
            + path),
        socket_url("http://"@ + rest, path, r) ==> (r matches Ok(u) && u@ == "ws://"@ + rest + path),
{
    reveal_strlit("https://");
    reveal_strlit("http://");
    let long = "https://"@;
    let short = "http://"@;
    assert((long + rest).subrange(0, long.len() as int) =~= long);
    assert((long + rest).skip(long.len() as int) =~= rest);
    assert((short + rest).subrange(0, short.len() as int) =~= short);
    assert((short + rest).skip(short.len() as int) =~= rest);
    if text::begins(short + rest, long) {
        assert((short + rest).subrange(0, long.len() as int)[4] == (short + rest)[4]);
        assert(short[4] == ':' && long[4] == 's');
    }
}

/// What is not given is not sent, and what is given is sent under its name, behind the rest.
pub proof fn lemma_with_option(ms: Seq<(Seq<char>, Doc)>, key: Seq<char>, value: Seq<char>)
    requires
        forall|k: int| 0 <= k < ms.len() ==> (#[trigger] ms[k]).0 != key,
    ensures
        with_option(ms, key, None) == ms,
        Doc::Object(with_option(ms, key, None)).field(key) is None,
        Doc::Object(with_option(ms, key, Some(value))).field(key) == Some(Doc::Text(value)),
{
    json::lemma_no_field(Doc::Object(ms), key);
    let more = with_option(ms, key, Some(value));
    assert forall|k: int| 0 <= k < ms.len() implies (#[trigger] more[k]).0 != key by {
        assert(more[k] == ms[k]);
    }
    json::lemma_field(more, key, ms.len() as int);
}

/// The address that is given goes before the environment's, and that before the usual one.
pub proof fn lemma_choose_base_url(given: Option<&str>, environment: Option<&str>, r: String)
    requires
        call_ensures(choose_base_url, (given, environment), r),
    ensures
        given matches Some(u) ==> r@ == u@,
        given is None ==> (environment matches Some(u) ==> r@ == u@),
        given is None && environment is None ==> r@ == "http://127.0.0.1:3080"@,
{
}

/// A session is made in one place at most: in a directory or in a workspace.
pub proof fn lemma_session_create(
    cwd: Option<&str>,
    workspace_id: Option<&str>,
    agent_preset: Option<&str>,
    r: Result<Json, DshError>,
)
    requires
        call_ensures(session_create_payload, (cwd, workspace_id, agent_preset), r),
    ensures
        r is Err <==> cwd is Some && workspace_id is Some,
        r matches Ok(v) ==> v@.text_at("cwd"@) == text::opt_str(cwd),
        r matches Ok(v) ==> v@.text_at("workspaceId"@) == text::opt_str(workspace_id),
        r matches Ok(v) ==> v@.text_at("agentPreset"@) == text::opt_str(agent_preset),
{
    reveal_strlit("cwd");
    reveal_strlit("workspaceId");
    reveal_strlit("agentPreset");
    assert("cwd"@.len() == 3);
    assert("workspaceId"@.len() == 11 && "workspaceId"@[0] == 'w');
    assert("agentPreset"@.len() == 11 && "agentPreset"@[0] == 'a');
    match r {
        Ok(v) => {
            let ms = v@->Object_0;
            let a = if cwd is Some {
                1int
            } else {
                0
            };
            let b = if workspace_id is Some {
                a + 1
            } else {
                a
            };
            if cwd is Some {
                json::lemma_field(ms, "cwd"@, 0);
            } else {
                json::lemma_no_field(v@, "cwd"@);
            }
            if workspace_id is Some {
                json::lemma_field(ms, "workspaceId"@, a);
            } else {
                json::lemma_no_field(v@, "workspaceId"@);
            }
            if agent_preset is Some {
                json::lemma_field(ms, "agentPreset"@, b);
            } else {
                json::lemma_no_field(v@, "agentPreset"@);
            }
        },
        Err(_) => {},
    }
}

/// A session that was made has a name, and one without a name was not made.
pub proof fn lemma_session_reply(value: &Json, r: Result<DshSession, DshError>)
    requires
        call_ensures(session_from_reply, (value,), r),
    ensures
        r is Ok <==> (value@.text_at("sessionId"@) matches Some(id) && id.len() > 0),
        r matches Ok(s) ==> value@.text_at("sessionId"@) == Some(s.session_id@),
{
}

/// A reply that holds nothing but white space is none.
pub proof fn lemma_empty_reply(reply: &str, r: Result<(), DshError>)
    requires
        call_ensures(ensure_result_is_not_empty, (reply,), r),
    ensures
        r is Ok <==> text::trimmed(reply@).len() > 0,
{
}

/// A client speaks to an HTTP address, without the slashes behind it, and to no other.
pub proof fn lemma_client(base_url: &str, r: Result<DshClient, DshError>)
    requires
        call_ensures(DshClient::new, (base_url,), r),
    ensures
        r matches Ok(c) ==> c.address().len() > 0 && c.address().last() != '/' && c.patience() == 30,
        r matches Ok(c) ==> text::begins(c.address(), "http://"@) || text::begins(
            c.address(),
            "https://"@,
        ),
        r is Err ==> !text::begins(text::without_trailing(base_url@, '/'), "http://"@)
            && !text::begins(text::without_trailing(base_url@, '/'), "https://"@),
{
    reveal_strlit("http://");
    reveal_strlit("https://");
    let n = text::lemma_without_trailing(base_url@, '/');
}

/// A failure names the request's method, and what it was for: an answer that is none, an answer to
/// another request, one without a result, or one that reports an error, with its code and message.
pub proof fn lemma_failures(
    method: &str,
    rpc_id: &str,
    response: &Json,
    r: Result<Json, DshError>,
)
    requires
        call_ensures(check_response, (method, rpc_id, response), r),
    ensures
        r matches Err(DshError::InvalidEnvelope { method: m }) ==> m@ == method@,
        r matches Err(DshError::MismatchedId { method: m }) ==> m@ == method@,
        r matches Err(DshError::Failed { method: m, code, message }) ==> m@ == method@ && ({
            let error = member_or_null(response@.field("result"@)->0, "error"@);
            &&& error.text_at("code"@) matches Some(c) ==> code@ == c
            &&& error.text_at("code"@) is None ==> code@ == "unknown"@
            &&& error.text_at("message"@) matches Some(t) ==> message@ == t
            &&& error.text_at("message"@) is None ==> message@ == "unknown DSH error"@
        }),
        response@.text_at("type"@) != Some("server-response"@) <==> r matches Err(
            DshError::InvalidEnvelope { .. },
        ),
        response@.text_at("type"@) == Some("server-response"@) && response@.text_at("rpcId"@) != Some(
            rpc_id@,
        ) <==> r matches Err(DshError::MismatchedId { .. }),
{
}

}
