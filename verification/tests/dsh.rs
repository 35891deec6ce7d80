//! Talking to the agent host.

use nonoka::dsh::client::{
    check_response, choose_base_url, ensure_result_is_not_empty, new_rpc_id, request,
    session_create_payload, session_from_reply, websocket_url, DshClient, DshContentBlock,
    DshError, DshPrompt,
};
use nonoka::dsh::events::{
    check_subscription, may_concern, read_frame, take_message, Dropped, DshEventFrame,
    DshTurnCollector, StreamMessage, Subscription, Taken,
};
use nonoka::dsh::flow::{trial_report, workspace_dir, Action, Event, TurnFlow, TurnKind};
use nonoka::dsh::repl::{read_line, ReplLine};
use nonoka::json::{self, Fields, Json};

fn convert(value: &serde_json::Value) -> Json {
    match value {
        serde_json::Value::Null => Json::Null,
        serde_json::Value::Bool(b) => Json::Bool(*b),
        serde_json::Value::Number(n) => match (n.as_u64(), n.as_i64()) {
            (Some(u), _) => Json::Unsigned(u),
            (None, Some(i)) => Json::Negative(i),
            _ => Json::Real(n.to_string()),
        },
        serde_json::Value::String(s) => Json::Text(s.clone()),
        serde_json::Value::Array(a) => Json::Array(a.iter().map(convert).collect()),
        serde_json::Value::Object(o) => {
            Json::Object(o.iter().map(|(k, v)| (k.clone(), convert(v))).collect())
        }
    }
}

fn doc(text: &str) -> Json {
    convert(&serde_json::from_str(text).unwrap())
}

fn frame(payload: &str) -> DshEventFrame {
    DshEventFrame {
        rpc_id: "event-1".to_string(),
        kind: "session/event".to_string(),
        payload: doc(payload),
    }
}

const START: &str =
    r#"{"sessionId": "sess-1", "event": {"type": "turn/start", "data": {"turn": 1}}}"#;
const MESSAGE: &str = r#"{"sessionId": "sess-1", "event": {"type": "assistant/message", "data": {"message": {"content": [{"type": "text", "text": "你好"}]}}}}"#;
const END: &str = r#"{"sessionId": "sess-1", "event": {"type": "turn/end", "data": {"reason": {"kind": "done"}}}}"#;
const OTHER_END: &str = r#"{"sessionId": "sess-2", "event": {"type": "turn/end", "data": {"reason": {"kind": "done"}}}}"#;

#[test]
fn websocket_url_follows_http_scheme() {
    assert_eq!(
        websocket_url("http://127.0.0.1:3080", "/api/events.mux").unwrap(),
        "ws://127.0.0.1:3080/api/events.mux"
    );
    assert_eq!(
        websocket_url("https://example.test/", "/api/events.mux").unwrap(),
        "wss://example.test//api/events.mux"
    );
}

#[test]
fn collector_only_finishes_for_the_target_session() {
    let mut collector = DshTurnCollector::new("sess-1");
    assert!(collector.push(&frame(OTHER_END)).unwrap().is_none());
    collector.push(&frame(START)).unwrap();
    collector.push(&frame(MESSAGE)).unwrap();
    let result = collector.push(&frame(END)).unwrap().unwrap();
    assert_eq!(result.text, "你好");
    assert_eq!(result.session_id, "sess-1");
}

#[test]
fn prompt_serializes_dsh_content_shape() {
    let prompt = DshPrompt {
        session_id: "sess-1".to_string(),
        mode: "queue".to_string(),
        content: vec![DshContentBlock::Text {
            text: "你好".to_string(),
        }],
    };
    let value = prompt.to_json();
    assert_eq!(value.text_at("sessionId"), Some("sess-1"));
    assert_eq!(
        value.array_at("content").unwrap()[0].text_at("type"),
        Some("text")
    );
}

#[test]
fn addresses_without_a_scheme_are_refused() {
    assert_eq!(
        websocket_url("ftp://x", "/y").unwrap_err().message(),
        "invalid DSH base URL"
    );
    assert_eq!(
        DshClient::new("127.0.0.1:3080").unwrap_err().message(),
        "DSH base URL must start with http:// or https://"
    );
    let client = DshClient::with_timeout("https://host//", 7).unwrap();
    assert_eq!(client.base_url(), "https://host");
    assert_eq!(client.timeout_secs(), 7);
    assert_eq!(client.method_url("session.create"), "https://host/api/session.create");
    assert_eq!(client.events_url().unwrap(), "wss://host/api/events.mux");
    assert_eq!(choose_base_url(Some("a"), Some("b")), "a");
    assert_eq!(choose_base_url(None, Some("b")), "b");
    assert!(DshClient::new(&choose_base_url(None, None)).is_ok());
}

#[test]
fn requests_are_named_and_wrapped() {
    assert_eq!(new_rpc_id(7, 12), "nonoka-7-12");
    assert_eq!(
        request("r", "m", Json::Null).to_text(),
        "{\"type\":\"client-request\",\"rpcId\":\"r\",\"method\":\"m\",\"payload\":null}"
    );
}

#[test]
fn answers_are_checked() {
    let check = |text: &str| check_response("m", "r", &doc(text));
    let ok = r#"{"type":"server-response","rpcId":"r","result":{"ok":true,"value":{"a":1}}}"#;
    assert_eq!(check(ok).unwrap().to_text(), "{\"a\":1}");
    assert_eq!(
        check(r#"{"type":"x"}"#).unwrap_err().message(),
        "DSH RPC m returned an invalid response envelope"
    );
    assert_eq!(
        check(r#"{"type":"server-response","rpcId":"q"}"#).unwrap_err().message(),
        "DSH RPC m returned a mismatched rpcId"
    );
    assert_eq!(
        check(r#"{"type":"server-response","rpcId":"r"}"#).unwrap_err().message(),
        "DSH response has no result"
    );
    assert_eq!(
        check(r#"{"type":"server-response","rpcId":"r","result":{"error":{"code":"c","message":"bad"}}}"#)
            .unwrap_err()
            .message(),
        "DSH RPC m failed: c: bad"
    );
    assert_eq!(
        check(r#"{"type":"server-response","rpcId":"r","result":{}}"#).unwrap_err().message(),
        "DSH RPC m failed: unknown: unknown DSH error"
    );
    let status = DshError::Status {
        method: "m".to_string(),
        status: "500".to_string(),
        body: "b".to_string(),
    };
    assert_eq!(status.message(), "DSH RPC m returned HTTP 500: b");
}

#[test]
fn sessions_are_made_in_one_place() {
    assert!(session_create_payload(Some("/w"), None, Some("p")).is_ok());
    assert_eq!(
        session_create_payload(Some("/w"), Some("ws"), None).unwrap_err().message(),
        "DSH session.create accepts cwd or workspaceId, not both"
    );
    let session = session_from_reply(&doc(r#"{"sessionId":"s","workspaceId":"w"}"#)).unwrap();
    assert_eq!(session.session_id, "s");
    assert_eq!(session.workspace_id, None);
    assert!(session_from_reply(&doc(r#"{"sessionId":""}"#)).is_err());
    assert_eq!(
        session_from_reply(&Json::Null).unwrap_err().message(),
        "DSH session.create returned no sessionId"
    );
    assert!(ensure_result_is_not_empty("x").is_ok());
    assert_eq!(
        ensure_result_is_not_empty(" \n").unwrap_err().message(),
        "DSH returned an empty reply"
    );
}

#[test]
fn frames_of_other_sessions_are_passed_over() {
    assert!(may_concern("sess-1 and more", Some("sess-1")));
    assert!(!may_concern("sess-2", Some("sess-1")));
    assert!(may_concern("{\"type\":\"stream/error\"}", Some("sess-1")));
    assert!(may_concern("anything", None));
    let envelope = doc(
        r#"{"type":"server-request","rpcId":"r","method":"session/event","payload":{"sessionId":"sess-1"}}"#,
    );
    let got = read_frame(&envelope, Some("sess-1")).unwrap();
    assert_eq!((got.rpc_id.as_str(), got.kind.as_str()), ("r", "session/event"));
    assert!(read_frame(&envelope, Some("sess-2")).is_none());
    assert!(read_frame(&envelope, None).is_some());
    let error = doc(r#"{"type":"server-request","rpcId":"r","method":"stream/error"}"#);
    assert!(read_frame(&error, Some("sess-2")).is_some());
    assert!(read_frame(&doc(r#"{"type":"x","rpcId":"r","method":"m"}"#), None).is_none());
}

#[test]
fn the_text_of_a_turn_is_that_of_its_messages() {
    let mut collector = DshTurnCollector::new("sess-1");
    collector.push(&frame(MESSAGE)).unwrap();
    collector.push(&frame(START)).unwrap();
    collector.push(&frame(MESSAGE)).unwrap();
    collector.push(&frame(OTHER_END)).unwrap();
    collector.push(&frame(MESSAGE)).unwrap();
    let result = collector.push(&frame(END)).unwrap().unwrap();
    assert_eq!(result.text, "你好你好");
    assert_eq!(result.reason.text_at("kind"), Some("done"));
    let broken = collector.push(&frame(r#"{"sessionId":"sess-1"}"#));
    assert_eq!(
        broken.unwrap_err().message(),
        "DSH session/event has no event"
    );
    let mut lost = frame(r#"{"why":"gone"}"#);
    lost.kind = "stream/error".to_string();
    assert_eq!(
        collector.push(&lost).unwrap_err().message(),
        "DSH event stream error: {\"why\":\"gone\"}"
    );
    assert!(matches!(check_subscription(&lost, "sess-1"), Subscription::Failed(_)));
    assert!(matches!(check_subscription(&frame(START), "sess-1"), Subscription::Waiting));
}

fn subscribed_to(session: &str) -> Event {
    let mut f = frame(&format!("{{\"sessionId\": \"{session}\"}}"));
    f.kind = "session/subscribed".to_string();
    Event::Frame(f)
}

fn subscribed() -> Event {
    subscribed_to("sess-1")
}

#[test]
fn a_question_is_asked_answered_and_put_away() {
    let mut flow = TurnFlow::start(TurnKind::Ask, "sess-1", "hi");
    assert!(matches!(flow.action(), Action::OpenEvents));
    flow.step(Event::Opened(Ok(())));
    assert!(matches!(flow.action(), Action::NextFrame { limit_secs: 15 }));
    flow.step(Event::Frame(frame(START)));
    flow.step(subscribed_to("sess-2"));
    assert!(matches!(flow.action(), Action::NextFrame { limit_secs: 15 }));
    flow.step(subscribed());
    match flow.action() {
        Action::Send(prompt) => assert_eq!(
            prompt.to_json().to_text(),
            "{\"sessionId\":\"sess-1\",\"mode\":\"queue\",\"content\":[{\"type\":\"text\",\"text\":\"hi\"}]}"
        ),
        _ => panic!("send"),
    }
    flow.step(Event::Sent(Ok(())));
    assert!(matches!(flow.action(), Action::NextFrame { limit_secs: 300 }));
    flow.step(Event::Frame(frame(START)));
    flow.step(Event::Frame(frame(MESSAGE)));
    flow.step(Event::Frame(frame(END)));
    assert!(matches!(flow.action(), Action::Archive));
    flow.step(Event::Archived);
    assert!(matches!(flow.action(), Action::Finish));
    let result = flow.finish().unwrap().unwrap();
    assert_eq!(result.text, "你好");
    assert_eq!(result.session_id, "sess-1");
    assert_eq!(result.reason.to_text(), "{\"kind\":\"done\"}");
}

#[test]
fn a_failure_is_put_away_too_and_stays() {
    let mut flow = TurnFlow::start(TurnKind::Ask, "sess-1", "hi");
    flow.step(Event::Opened(Ok(())));
    flow.step(Event::TimedOut);
    assert!(matches!(flow.action(), Action::Archive));
    flow.step(subscribed());
    flow.step(Event::Archived);
    assert_eq!(
        flow.finish().unwrap_err(),
        "timed out waiting for DSH session subscription"
    );

    let mut repl = TurnFlow::start_prompt(TurnKind::Repl, "sess-1", "hi");
    repl.step(Event::Sent(Ok(())));
    repl.step(Event::Closed);
    assert!(matches!(repl.action(), Action::Finish));
    assert_eq!(
        repl.finish().unwrap_err(),
        "DSH event stream closed before turn/end"
    );

    let mut trial = TurnFlow::start_prompt(TurnKind::Trial, "sess-1", "hi");
    trial.step(Event::Sent(Ok(())));
    assert!(matches!(trial.action(), Action::NextFrame { limit_secs: 120 }));
    trial.step(Event::TimedOut);
    assert_eq!(
        trial.finish().unwrap_err(),
        "timed out waiting for DSH turn/end (120s)"
    );
}

#[test]
fn turns_have_directories_and_trials_are_reported() {
    assert_eq!(workspace_dir("/s", TurnKind::Ask), "/s/dsh-ask");
    assert_eq!(workspace_dir("/s", TurnKind::Repl), "/s/dsh-repl");
    assert_eq!(workspace_dir("/s/", TurnKind::Trial), "/s/dsh-test");
    let reason = Fields::new().with("kind", json::string("done")).build();
    assert_eq!(
        trial_report(false, &reason, "hello"),
        "Turn finished: {\"kind\":\"done\"}\nAgent reply:\nhello"
    );
    assert_eq!(
        trial_report(true, &Json::Null, ""),
        "回合结束： null\nAgent 回复：\n（无文本）"
    );
}

#[test]
fn lines_are_commands_or_prompts() {
    assert!(matches!(read_line(" /EXIT "), ReplLine::Exit));
    assert!(matches!(read_line("quit"), ReplLine::Exit));
    assert!(matches!(read_line("Help"), ReplLine::Help));
    assert!(matches!(read_line("  "), ReplLine::Empty));
    assert!(matches!(read_line(" hi there "), ReplLine::Prompt(p) if p == "hi there"));
}

#[test]
fn a_session_is_opened_without_a_prompt() {
    let mut flow = TurnFlow::start_session("sess-1");
    assert!(matches!(flow.action(), Action::OpenEvents));
    flow.step(Event::Opened(Ok(())));
    flow.step(subscribed_to("sess-2"));
    assert!(matches!(flow.action(), Action::NextFrame { limit_secs: 15 }));
    flow.step(subscribed());
    assert!(matches!(flow.action(), Action::Finish));
    assert!(flow.finish().unwrap().is_none());

    let mut late = TurnFlow::start_session("sess-1");
    late.step(Event::Opened(Ok(())));
    late.step(Event::TimedOut);
    assert!(matches!(late.action(), Action::Finish));
    assert_eq!(
        late.finish().unwrap_err(),
        "timed out waiting for DSH session subscription"
    );
}

#[test]
fn messages_are_passed_over_read_or_end_the_stream() {
    let take = |text: &str| {
        let parsed = serde_json::from_str(text).ok().map(|v| convert(&v));
        let message = StreamMessage::Text {
            text: text.to_string(),
            parsed,
        };
        take_message(message, Some("sess-1"))
    };
    let dropped = |taken: Taken| match taken {
        Taken::Skip { dropped } => dropped.map(|d| d.message()),
        _ => panic!("skip"),
    };
    let good = r#"{"type":"server-request","rpcId":"r","method":"session/event","payload":{"sessionId":"sess-1"}}"#;
    assert!(matches!(take(good), Taken::Frame(f) if f.kind == "session/event" && f.rpc_id == "r"));
    assert_eq!(dropped(take(&good.replace("sess-1", "sess-2"))), None);
    let quoted = good.replace("\"sess-1\"", "\"other\",\"about\":\"sess-1\"");
    assert_eq!(dropped(take(&quoted)), None);
    assert_eq!(dropped(take("sess-1 {")), Some("dropping malformed DSH event JSON"));
    assert_eq!(
        dropped(take(&good.replace("server-request", "x"))),
        Some("dropping non-server-request DSH event frame")
    );
    assert_eq!(
        dropped(take(&good.replace("rpcId", "x"))),
        Some("dropping DSH event without rpcId")
    );
    assert_eq!(
        dropped(take(&good.replace("method", "x"))),
        Some("dropping DSH event without method")
    );
    let other = |m: StreamMessage| take_message(m, Some("sess-1"));
    assert_eq!(dropped(other(StreamMessage::Binary)), Some(Dropped::Binary.message()));
    assert_eq!(dropped(other(StreamMessage::Ping)), None);
    assert_eq!(dropped(other(StreamMessage::Pong)), None);
    assert_eq!(dropped(other(StreamMessage::Other)), None);
    assert!(matches!(other(StreamMessage::Close), Taken::End));
    assert!(matches!(other(StreamMessage::Ended), Taken::End));
    let broken = StreamMessage::Broken {
        why: "reset".to_string(),
    };
    assert!(matches!(other(broken), Taken::Fail { why } if why == "reset"));
}

#[test]
fn the_text_starts_anew_behind_the_end_of_a_turn() {
    let mut collector = DshTurnCollector::new("sess-1");
    collector.push(&frame(MESSAGE)).unwrap();
    let first = collector.push(&frame(END)).unwrap().unwrap();
    assert_eq!(first.text, "你好");
    collector.push(&frame(MESSAGE)).unwrap();
    collector.push(&frame(MESSAGE)).unwrap();
    let second = collector.push(&frame(END)).unwrap().unwrap();
    assert_eq!(second.text, "你好你好");
}
