//! What happens in a turn, event by event.

use super::client::{self, DshError};
use crate::json::{self, Doc, Json};
use crate::text;
use vstd::prelude::*;

verus! {

/// An event, in the envelope in which it comes.
#[derive(Debug)]
pub struct DshEventFrame {
    pub rpc_id: String,
    pub kind: String,
    pub payload: Json,
}

/// What a turn comes to.
#[derive(Debug)]
pub struct DshTurnResult {
    pub session_id: String,
    pub text: String,
    pub reason: Json,
}

/// Whether a message of the stream is looked into at all. The stream carries the events of all
/// sessions, and most of what is in it belongs to others.
pub open spec fn concerns(message: Seq<char>, session_id: Option<Seq<char>>) -> bool {
    match session_id {
        Some(id) => text::mentions(message, id) || text::mentions(
            message,
            "\"type\":\"stream/error\""@,
        ),
        None => true,
    }
}

/// Whether a message of the stream is looked into at all.
pub fn may_concern(message: &str, session_id: Option<&str>) -> (r: bool)
    ensures
        r == concerns(message@, text::opt_str(session_id)),
{
    match session_id {
        Some(id) => text::contains(message, id) || text::contains(
            message,
            "\"type\":\"stream/error\"",
        ),
        None => true,
    }
}

/// Whether an envelope holds an event that is wanted: any, or one of a session, or an error of
/// the stream.
pub open spec fn is_wanted(envelope: Doc, session_id: Option<Seq<char>>) -> bool {
    &&& envelope.text_at("type"@) == Some("server-request"@)
    &&& envelope.text_at("rpcId"@) is Some
    &&& envelope.text_at("method"@) is Some
    &&& match session_id {
        Some(id) => envelope.text_at("method"@) == Some("stream/error"@) || client::member_or_null(
            envelope,
            "payload"@,
        ).text_at("sessionId"@) == Some(id),
        None => true,
    }
}

/// Whether a frame holds what an envelope does.
pub open spec fn is_frame_of(envelope: Doc, f: DshEventFrame) -> bool {
    &&& envelope.text_at("rpcId"@) == Some(f.rpc_id@)
    &&& envelope.text_at("method"@) == Some(f.kind@)
    &&& f.payload@ == client::member_or_null(envelope, "payload"@)
}

/// The event in an envelope, if it is wanted.
pub fn read_frame(envelope: &Json, session_id: Option<&str>) -> (r: Option<DshEventFrame>)
    ensures
        r is Some <==> is_wanted(envelope@, text::opt_str(session_id)),
        r matches Some(f) ==> is_frame_of(envelope@, f),
{
    match envelope.text_at("type") {
        Some(t) => {
            if !text::same(t, "server-request") {
                return None;
            }
        },
        None => {
            return None;
        },
    }
    let rpc_id = match envelope.text_at("rpcId") {
        Some(v) => v.to_owned(),
        None => {
            return None;
        },
    };
    let kind = match envelope.text_at("method") {
        Some(v) => v.to_owned(),
        None => {
            return None;
        },
    };
    let payload = client::copy_member(envelope, "payload");
    match session_id {
        Some(id) => {
            if !text::same(kind.as_str(), "stream/error") {
                let ours = match payload.text_at("sessionId") {
                    Some(s) => text::same(s, id),
                    None => false,
                };
                if !ours {
                    return None;
                }
            }
        },
        None => {},
    }
    Some(DshEventFrame { rpc_id, kind, payload })
}

/// A message of the stream, or its end.
#[derive(Debug)]
pub enum StreamMessage {
    /// A text, and the value that it reads as, if it is JSON.
    Text { text: String, parsed: Option<Json> },
    /// Bytes.
    Binary,
    /// A question whether anyone is there.
    Ping,
    /// The answer to that.
    Pong,
    /// The other side closes the stream.
    Close,
    /// Something else.
    Other,
    /// The stream is over.
    Ended,
    /// The stream cannot be read, for this reason.
    Broken { why: String },
}

/// Why a message is dropped that should not have come.
#[derive(Debug, Clone, Copy, PartialEq, Eq, Structural)]
pub enum Dropped {
    Binary,
    Malformed,
    NotARequest,
    NoRpcId,
    NoMethod,
}

impl Dropped {
    /// What is said of it.
    pub fn message(&self) -> (r: &'static str)
        ensures
            r@ == match self {
                Dropped::Binary => "dropping binary DSH event frame"@,
                Dropped::Malformed => "dropping malformed DSH event JSON"@,
                Dropped::NotARequest => "dropping non-server-request DSH event frame"@,
                Dropped::NoRpcId => "dropping DSH event without rpcId"@,
                Dropped::NoMethod => "dropping DSH event without method"@,
            },
    {
        match self {
            Dropped::Binary => "dropping binary DSH event frame",
            Dropped::Malformed => "dropping malformed DSH event JSON",
            Dropped::NotARequest => "dropping non-server-request DSH event frame",
            Dropped::NoRpcId => "dropping DSH event without rpcId",
            Dropped::NoMethod => "dropping DSH event without method",
        }
    }
}

/// What a message comes to.
#[derive(Debug)]
pub enum Taken {
    /// Nothing: the next one is read. Where it should not have come, that is said.
    Skip { dropped: Option<Dropped> },
    /// This frame.
    Frame(DshEventFrame),
    /// The end of the stream.
    End,
    /// A failure, for this reason.
    Fail { why: String },
}

/// What is wrong with an envelope, if anything is.
pub open spec fn fault(envelope: Doc) -> Option<Dropped> {
    if envelope.text_at("type"@) != Some("server-request"@) {
        Some(Dropped::NotARequest)
    } else if envelope.text_at("rpcId"@) is None {
        Some(Dropped::NoRpcId)
    } else if envelope.text_at("method"@) is None {
        Some(Dropped::NoMethod)
    } else {
        None
    }
}

/// Whether `r` is what a message comes to.
pub open spec fn comes_to(m: StreamMessage, session_id: Option<Seq<char>>, r: Taken) -> bool {
    match m {
        StreamMessage::Text { text, parsed } => if !concerns(text@, session_id) {
            r == (Taken::Skip { dropped: None })
        } else {
            match parsed {
                None => r == (Taken::Skip { dropped: Some(Dropped::Malformed) }),
                Some(envelope) => if is_wanted(envelope@, session_id) {
                    r matches Taken::Frame(f) && is_frame_of(envelope@, f)
                } else {
                    r == (Taken::Skip { dropped: fault(envelope@) })
                },
            }
        },
        StreamMessage::Binary => r == (Taken::Skip { dropped: Some(Dropped::Binary) }),
        StreamMessage::Ping | StreamMessage::Pong | StreamMessage::Other => r == (Taken::Skip {
            dropped: None,
        }),
        StreamMessage::Close | StreamMessage::Ended => r is End,
        StreamMessage::Broken { why } => r matches Taken::Fail { why: w } && w@ == why@,
    }
}

fn fault_of(envelope: &Json) -> (r: Option<Dropped>)
    ensures
        r == fault(envelope@),
{
    let request = match envelope.text_at("type") {
        Some(t) => text::same(t, "server-request"),
        None => false,
    };
    if !request {
        Some(Dropped::NotARequest)
    } else if envelope.text_at("rpcId").is_none() {
        Some(Dropped::NoRpcId)
    } else if envelope.text_at("method").is_none() {
        Some(Dropped::NoMethod)
    } else {
        None
    }
}

/// What a message of the stream comes to, where the events of a session are wanted, or all. What
/// a text reads as is looked at only where the text may concern the session.
pub fn take_message(m: StreamMessage, session_id: Option<&str>) -> (r: Taken)
    ensures
        comes_to(m, text::opt_str(session_id), r),
{
    match m {
        StreamMessage::Text { text, parsed } => {
            if !may_concern(text.as_str(), session_id) {
                return Taken::Skip { dropped: None };
            }
            match parsed {
                None => Taken::Skip { dropped: Some(Dropped::Malformed) },
                Some(envelope) => match read_frame(&envelope, session_id) {
                    Some(f) => Taken::Frame(f),
                    None => Taken::Skip { dropped: fault_of(&envelope) },
                },
            }
        },
        StreamMessage::Binary => Taken::Skip { dropped: Some(Dropped::Binary) },
        StreamMessage::Ping => Taken::Skip { dropped: None },
        StreamMessage::Pong => Taken::Skip { dropped: None },
        StreamMessage::Other => Taken::Skip { dropped: None },
        StreamMessage::Close => Taken::End,
        StreamMessage::Ended => Taken::End,
        StreamMessage::Broken { why } => Taken::Fail { why },
    }
}

/// Only a stream that cannot be read fails, and only one that is closed or over ends. A frame
/// comes of nothing but a text that holds a request of the server, and where a session is asked
/// for it is that session's or tells of an error of the stream. Everything else is passed over.
pub proof fn lemma_messages(m: StreamMessage, session_id: Option<Seq<char>>, r: Taken)
    requires
        comes_to(m, session_id, r),
    ensures
        r is Fail <==> m is Broken,
        r is End <==> m is Close || m is Ended,
        r matches Taken::Frame(f) ==> {
            &&& m matches StreamMessage::Text { parsed: Some(envelope), .. }
            &&& envelope@.text_at("type"@) == Some("server-request"@)
            &&& is_frame_of(envelope@, f)
            &&& session_id matches Some(id) ==> f.kind@ == "stream/error"@ || f.payload@.text_at(
                "sessionId"@,
            ) == Some(id)
        },
{
}

/// What is said of an error of the stream.
pub open spec fn stream_error(payload: Doc) -> Seq<char> {
    json::rendered(payload)
}

/// The text of the first `n` blocks of a message.
pub open spec fn block_text(content: Seq<Doc>, n: nat) -> Seq<char>
    decreases n,
{
    if n == 0 {
        Seq::empty()
    } else {
        let before = block_text(content, (n - 1) as nat);
        if content[n - 1].text_at("type"@) == Some("text"@) {
            match content[n - 1].text_at("text"@) {
                Some(t) => before + t,
                None => before,
            }
        } else {
            before
        }
    }
}

/// The text of an agent's message.
pub open spec fn message_text(event: Doc) -> Seq<char> {
    match event.field("data"@) {
        Some(data) => match data.inner("message"@, "content"@) {
            Some(Doc::Array(content)) => block_text(content, content.len()),
            _ => Seq::empty(),
        },
        None => Seq::empty(),
    }
}

/// The text of a message's blocks is that of the first of them followed by that of the rest, however
/// they are divided: no block is left out, none is told twice, and they stand in their order.
pub proof fn lemma_blocks_join(a: Seq<Doc>, b: Seq<Doc>)
    ensures
        block_text(a + b, (a + b).len()) == block_text(a, a.len()) + block_text(b, b.len()),
    decreases b.len(),
{
    if b.len() == 0 {
        assert(a + b =~= a);
        assert(block_text(b, 0) =~= Seq::<char>::empty());
        assert(block_text(a, a.len()) + Seq::<char>::empty() =~= block_text(a, a.len()));
    } else {
        let c = b.drop_last();
        let n = (a + b).len();
        lemma_blocks_join(a, c);
        assert((a + b).drop_last() =~= a + c);
        lemma_block_text_take(a + b, (n - 1) as nat);
        lemma_block_text_take(b, (b.len() - 1) as nat);
        assert((a + b).take(n - 1) =~= a + c);
        assert(b.take(b.len() - 1) =~= c);
        assert((a + b)[n - 1] == b[b.len() - 1]);
        let one = block_text(a, a.len());
        let two = block_text(c, c.len());
        match b.last().text_at("text"@) {
            Some(t) => {
                assert((one + two) + t =~= one + (two + t));
            },
            None => {},
        }
    }
}

/// A block of text is told as it is, and a block of any other type is not told, whatever it holds.
pub proof fn lemma_block_is_told(block: Doc, words: Seq<char>)
    ensures
        block.text_at("type"@) == Some("text"@) && block.text_at("text"@) == Some(words)
            ==> block_text(seq![block], 1) == words,
        block.text_at("type"@) != Some("text"@) ==> block_text(seq![block], 1) == Seq::<
            char,
        >::empty(),
{
    reveal_with_fuel(block_text, 2);
    assert(Seq::<char>::empty() + words =~= words);
}

/// The text of an agent's message is that of the blocks in its content.
pub proof fn lemma_message_is_its_content(event: Doc, data: Doc, message: Doc, content: Seq<Doc>)
    requires
        event.field("data"@) == Some(data),
        data.field("message"@) == Some(message),
        message.field("content"@) == Some(Doc::Array(content)),
    ensures
        message_text(event) == block_text(content, content.len()),
{
}

proof fn lemma_block_text_take(content: Seq<Doc>, n: nat)
    requires
        n <= content.len(),
    ensures
        block_text(content, n) == block_text(content.take(n as int), n),
    decreases n,
{
    if n > 0 {
        lemma_block_text_take(content, (n - 1) as nat);
        lemma_block_text_take(content.take(n as int), (n - 1) as nat);
        assert(content.take(n as int).take(n - 1) =~= content.take(n - 1));
    }
}

/// What has been gathered of a turn.
pub struct TurnState {
    pub session_id: Seq<char>,
    pub text: Seq<char>,
    pub turn: Option<Doc>,
}

/// Gathers the text of a turn.
#[derive(Debug)]
pub struct DshTurnCollector {
    session_id: String,
    text: String,
    active_turn: Option<Json>,
}

impl View for DshTurnCollector {
    type V = TurnState;

    closed spec fn view(&self) -> TurnState {
        TurnState {
            session_id: self.session_id@,
            text: self.text@,
            turn: match self.active_turn {
                Some(t) => Some(t@),
                None => None,
            },
        }
    }
}

/// Whether a frame holds an event of the session.
pub open spec fn is_own_event(s: TurnState, kind: Seq<char>, payload: Doc) -> bool {
    kind == "session/event"@ && payload.text_at("sessionId"@) == Some(s.session_id)
}

/// The kind of an event.
pub open spec fn event_kind(event: Doc) -> Seq<char> {
    event.text_or("type"@, ""@)
}

/// What is known after an event of the session.
pub open spec fn after_event(s: TurnState, event: Doc) -> TurnState {
    if event_kind(event) == "turn/start"@ {
        TurnState { text: Seq::empty(), turn: event.inner("data"@, "turn"@), ..s }
    } else if event_kind(event) == "assistant/message"@ {
        TurnState { text: s.text + message_text(event), ..s }
    } else if event_kind(event) == "turn/end"@ {
        TurnState { text: Seq::empty(), ..s }
    } else {
        s
    }
}

/// Why a turn has ended.
pub open spec fn end_reason(event: Doc) -> Doc {
    match event.inner("data"@, "reason"@) {
        Some(r) => r,
        None => Doc::Null,
    }
}

/// Whether `r` is what comes of a frame, and `next` is what is known after it.
pub open spec fn collected(
    s: TurnState,
    kind: Seq<char>,
    payload: Doc,
    next: TurnState,
    r: Result<Option<DshTurnResult>, DshError>,
) -> bool {
    if kind == "stream/error"@ {
        next == s && (r matches Err(DshError::Stream { payload: p }) && p@ == stream_error(
            payload,
        ))
    } else if !is_own_event(s, kind, payload) {
        next == s && (r matches Ok(None))
    } else {
        match payload.field("event"@) {
            None => next == s && (r matches Err(DshError::NoEvent)),
            Some(event) => next == after_event(s, event) && if event_kind(event) == "turn/end"@ {
                r matches Ok(Some(t)) && t.session_id@ == s.session_id && t.text@ == s.text
                    && t.reason@ == end_reason(event)
            } else {
                r matches Ok(None)
            },
        }
    }
}

/// The kinds of frames and events that are told apart.
proof fn lemma_kinds()
    ensures
        "stream/error"@ != "session/event"@,
        "turn/start"@ != "turn/end"@,
        "turn/start"@ != "assistant/message"@,
        "assistant/message"@ != "turn/end"@,
{
    reveal_strlit("stream/error");
    reveal_strlit("session/event");
    reveal_strlit("turn/start");
    reveal_strlit("turn/end");
    reveal_strlit("assistant/message");
    assert("stream/error"@.len() != "session/event"@.len());
    assert("turn/start"@.len() != "turn/end"@.len());
    assert("turn/start"@.len() != "assistant/message"@.len());
    assert("assistant/message"@.len() != "turn/end"@.len());
}

impl DshTurnCollector {
    /// Gathers the next turn of a session.
    pub fn new(session_id: &str) -> (r: DshTurnCollector)
        ensures
            r@ == (TurnState { session_id: session_id@, text: ""@, turn: None }),
    {
        DshTurnCollector {
            session_id: session_id.to_owned(),
            text: "".to_owned(),
            active_turn: None,
        }
    }

    fn append_assistant_message(&mut self, event: &Json)
        ensures
            final(self)@ == (TurnState {
                text: old(self)@.text + message_text(event@),
                ..old(self)@
            }),
    {
        let ghost before = self@;
        let content = match event.get("data") {
            Some(data) => match data.inner("message", "content") {
                Some(c) => c.as_array(),
                None => None,
            },
            None => None,
        };
        let mut more = String::new();
        match content {
            Some(blocks) => {
                let mut i: usize = 0;
                while i < blocks.len()
                    invariant
                        i <= blocks@.len(),
                        more@ == block_text(json::docs(blocks@), i as nat),
                    decreases blocks@.len() - i,
                {
                    assert(json::docs(blocks@)[i as int] == blocks@[i as int]@);
                    let is_text = match blocks[i].text_at("type") {
                        Some(t) => text::same(t, "text"),
                        None => false,
                    };
                    if is_text {
                        match blocks[i].text_at("text") {
                            Some(t) => {
                                more.append(t);
                            },
                            None => {},
                        }
                    }
                    i = i + 1;
                }
            },
            None => {},
        }
        self.text.append(more.as_str());
    }

    /// Takes in a frame. The turn's text comes out when the turn ends.
    pub fn push(&mut self, frame: &DshEventFrame) -> (r: Result<Option<DshTurnResult>, DshError>)
        ensures
            collected(old(self)@, frame.kind@, frame.payload@, final(self)@, r),
    {
        proof {
            lemma_kinds();
        }
        if !text::same(frame.kind.as_str(), "session/event") {
            if text::same(frame.kind.as_str(), "stream/error") {
                return Err(DshError::Stream { payload: frame.payload.to_text() });
            }
            return Ok(None);
        }
        let ours = match frame.payload.text_at("sessionId") {
            Some(s) => text::same(s, self.session_id.as_str()),
            None => false,
        };
        if !ours {
            return Ok(None);
        }
        let event = match frame.payload.get("event") {
            Some(e) => e,
            None => {
                return Err(DshError::NoEvent);
            },
        };
        let kind = event.text_or("type", "");
        if text::same(kind, "turn/start") {
            self.text = String::new();
            self.active_turn = match event.inner("data", "turn") {
                Some(t) => Some(t.duplicate()),
                None => None,
            };
        } else if text::same(kind, "assistant/message") {
            self.append_assistant_message(event);
        } else if text::same(kind, "turn/end") {
            let reason = match event.inner("data", "reason") {
                Some(r) => r.duplicate(),
                None => Json::Null,
            };
            let gathered = self.text.clone();
            self.text = String::new();
            return Ok(
                Some(
                    DshTurnResult {
                        session_id: self.session_id.clone(),
                        text: gathered,
                        reason,
                    },
                ),
            );
        }
        Ok(None)
    }
}

/// Frames of other sessions, and frames that hold no event, leave a turn as it is and never end
/// it.
pub proof fn lemma_others_do_not_matter(
    s: TurnState,
    kind: Seq<char>,
    payload: Doc,
    next: TurnState,
    r: Result<Option<DshTurnResult>, DshError>,
)
    requires
        collected(s, kind, payload, next, r),
        kind != "stream/error"@,
        !is_own_event(s, kind, payload),
    ensures
        next == s,
        r matches Ok(None),
{
}

/// What is known after the first `n` events of the session.
pub open spec fn after_events(s: TurnState, events: Seq<Doc>, n: nat) -> TurnState
    decreases n,
{
    if n == 0 {
        s
    } else {
        after_event(after_events(s, events, (n - 1) as nat), events[n - 1])
    }
}

/// The text of the messages among the events from `from` on, up to the first `n` events.
pub open spec fn messages_text(events: Seq<Doc>, from: nat, n: nat) -> Seq<char>
    decreases n,
{
    if n <= from {
        Seq::empty()
    } else if event_kind(events[n - 1]) == "assistant/message"@ {
        messages_text(events, from, (n - 1) as nat) + message_text(events[n - 1])
    } else {
        messages_text(events, from, (n - 1) as nat)
    }
}

/// How many of the first `n` events there are up to the last start or end of a turn among them.
pub open spec fn last_bound(events: Seq<Doc>, n: nat) -> nat
    decreases n,
{
    if n == 0 {
        0
    } else if event_kind(events[n - 1]) == "turn/start"@ || event_kind(events[n - 1])
        == "turn/end"@ {
        n
    } else {
        last_bound(events, (n - 1) as nat)
    }
}

/// The text of the turn that the first `n` events have come to: that of the messages since a turn
/// last started or ended, behind what was gathered before if none has.
pub open spec fn turn_text(before: Seq<char>, events: Seq<Doc>, n: nat) -> Seq<char> {
    if last_bound(events, n) == 0 {
        before + messages_text(events, 0, n)
    } else {
        messages_text(events, last_bound(events, n), n)
    }
}

/// The text that is gathered is that of the messages since a turn last started or ended, whatever
/// the events are.
pub proof fn lemma_turn_text(s: TurnState, events: Seq<Doc>, n: nat)
    requires
        n <= events.len(),
    ensures
        after_events(s, events, n).text == turn_text(s.text, events, n),
        after_events(s, events, n).session_id == s.session_id,
        last_bound(events, n) <= n,
    decreases n,
{
    lemma_kinds();
    if n == 0 {
        assert(turn_text(s.text, events, 0) =~= s.text);
    } else {
        let m = (n - 1) as nat;
        lemma_turn_text(s, events, m);
        let kind = event_kind(events[n - 1]);
        if kind != "turn/start"@ && kind != "turn/end"@ {
            assert(last_bound(events, n) == last_bound(events, m));
            if kind == "assistant/message"@ {
                assert(turn_text(s.text, events, n) =~= turn_text(s.text, events, m)
                    + message_text(events[n - 1]));
            }
        }
    }
}

/// The event of the session that a frame holds, if it holds one.
pub open spec fn own_event(session_id: Seq<char>, frame: (Seq<char>, Doc)) -> Option<Doc> {
    if frame.0 == "session/event"@ && frame.1.text_at("sessionId"@) == Some(session_id) {
        frame.1.field("event"@)
    } else {
        None
    }
}

/// The events of the session among the first `n` frames, each given by its kind and its payload.
pub open spec fn own_events(
    session_id: Seq<char>,
    frames: Seq<(Seq<char>, Doc)>,
    n: nat,
) -> Seq<Doc>
    decreases n,
{
    if n == 0 {
        Seq::empty()
    } else {
        let before = own_events(session_id, frames, (n - 1) as nat);
        match own_event(session_id, frames[n - 1]) {
            Some(e) => before.push(e),
            None => before,
        }
    }
}

/// What a turn comes to after one event more: the same as before, on the events before.
proof fn lemma_after_events_push(s: TurnState, events: Seq<Doc>, e: Doc, n: nat)
    requires
        n <= events.len(),
    ensures
        after_events(s, events.push(e), n) == after_events(s, events, n),
    decreases n,
{
    if n > 0 {
        lemma_after_events_push(s, events, e, (n - 1) as nat);
    }
}

/// Whatever frames come, a turn's result comes with the end of a turn of the session and with
/// nothing else. It bears the session and the reason that the end gives, and its text is that of
/// the session's messages since a turn last started or ended. `states` holds what is known before
/// and after each frame, and `results` what comes of it.
pub proof fn lemma_turn_result(
    states: Seq<TurnState>,
    frames: Seq<(Seq<char>, Doc)>,
    results: Seq<Result<Option<DshTurnResult>, DshError>>,
    n: nat,
)
    requires
        n < frames.len(),
        states.len() == frames.len() + 1,
        results.len() == frames.len(),
        forall|i: int|
            #![trigger frames[i]]
            0 <= i < frames.len() ==> collected(
                states[i],
                frames[i].0,
                frames[i].1,
                states[i + 1],
                results[i],
            ),
    ensures
        ({
            let id = states[0].session_id;
            let before = own_events(id, frames, n);
            let ends = own_event(id, frames[n as int]) matches Some(e) && event_kind(e)
                == "turn/end"@;
            match results[n as int] {
                Ok(Some(t)) => {
                    &&& ends
                    &&& t.session_id@ == id
                    &&& t.text@ == turn_text(states[0].text, before, before.len())
                    &&& t.reason@ == end_reason(own_event(id, frames[n as int])->0)
                },
                _ => !ends,
            }
        }),
{
    lemma_kinds();
    lemma_states(states, frames, results, n);
    let before = own_events(states[0].session_id, frames, n);
    lemma_turn_text(states[0], before, before.len());
    assert(collected(
        states[n as int],
        frames[n as int].0,
        frames[n as int].1,
        states[n as int + 1],
        results[n as int],
    ));
}

proof fn lemma_states(
    states: Seq<TurnState>,
    frames: Seq<(Seq<char>, Doc)>,
    results: Seq<Result<Option<DshTurnResult>, DshError>>,
    n: nat,
)
    requires
        n <= frames.len(),
        states.len() == frames.len() + 1,
        results.len() == frames.len(),
        forall|i: int|
            #![trigger frames[i]]
            0 <= i < frames.len() ==> collected(
                states[i],
                frames[i].0,
                frames[i].1,
                states[i + 1],
                results[i],
            ),
    ensures
        ({
            let events = own_events(states[0].session_id, frames, n);
            states[n as int] == after_events(states[0], events, events.len())
        }),
        states[n as int].session_id == states[0].session_id,
    decreases n,
{
    lemma_kinds();
    if n > 0 {
        let m = (n - 1) as nat;
        lemma_states(states, frames, results, m);
        let before = own_events(states[0].session_id, frames, m);
        assert(collected(
            states[m as int],
            frames[m as int].0,
            frames[m as int].1,
            states[m as int + 1],
            results[m as int],
        ));
        match own_event(states[0].session_id, frames[m as int]) {
            Some(e) => {
                lemma_after_events_push(states[0], before, e, before.len());
            },
            None => {},
        }
    }
}

/// What is done with a frame while a session is waited for.
#[derive(Debug)]
pub enum Subscription {
    /// The session's events come from now on.
    Ready,
    /// The stream has failed.
    Failed(DshError),
    /// Waiting goes on.
    Waiting,
}

/// Whether a frame says that a session's events come from now on.
pub open spec fn confirms(session_id: Seq<char>, kind: Seq<char>, payload: Doc) -> bool {
    kind == "session/subscribed"@ && payload.text_at("sessionId"@) == Some(session_id)
}

/// What is done with a frame while a session is waited for. The host says of every session that
/// its events come; only what it says of this one counts.
pub fn check_subscription(frame: &DshEventFrame, session_id: &str) -> (r: Subscription)
    ensures
        if confirms(session_id@, frame.kind@, frame.payload@) {
            r matches Subscription::Ready
        } else if frame.kind@ == "stream/error"@ {
            r matches Subscription::Failed(DshError::Stream { payload }) && payload@
                == stream_error(frame.payload@)
        } else {
            r matches Subscription::Waiting
        },
{
    let ours = match frame.payload.text_at("sessionId") {
        Some(s) => text::same(s, session_id),
        None => false,
    };
    if ours && text::same(frame.kind.as_str(), "session/subscribed") {
        Subscription::Ready
    } else if text::same(frame.kind.as_str(), "stream/error") {
        Subscription::Failed(DshError::Stream { payload: frame.payload.to_text() })
    } else {
        Subscription::Waiting
    }
}

/// The text of a message is gathered block by block: a message whose content is one list behind
/// another adds the text of the first and then that of the second.
pub proof fn lemma_push_gathers(
    c: &mut DshTurnCollector,
    frame: &DshEventFrame,
    r: Result<Option<DshTurnResult>, DshError>,
    event: Doc,
    a: Seq<Doc>,
    b: Seq<Doc>,
)
    requires
        call_ensures(DshTurnCollector::push, (c, frame), r),
        frame.kind@ == "session/event"@,
        frame.payload@.text_at("sessionId"@) == Some(old(c)@.session_id),
        frame.payload@.field("event"@) == Some(event),
        event.text_at("type"@) == Some("assistant/message"@),
        event.field("data"@) is Some,
        event.field("data"@)->0.inner("message"@, "content"@) == Some(Doc::Array(a + b)),
    ensures
        r matches Ok(None),
        final(c)@.session_id == old(c)@.session_id,
        final(c)@.text == old(c)@.text + block_text(a, a.len()) + block_text(b, b.len()),
{
    lemma_kinds();
    lemma_blocks_join(a, b);
    assert(final(c)@.text =~= old(c)@.text + block_text(a, a.len()) + block_text(b, b.len()));
}

/// Waiting for a session ends where its events come or the stream fails, and goes on with every
/// other frame.
pub proof fn lemma_check_subscription(
    frame: &DshEventFrame,
    session_id: &str,
    r: Subscription,
)
    requires
        call_ensures(check_subscription, (frame, session_id), r),
    ensures
        r is Ready <==> frame.kind@ == "session/subscribed"@ && frame.payload@.text_at("sessionId"@)
            == Some(session_id@),
        frame.kind@ != "session/subscribed"@ && frame.kind@ != "stream/error"@ ==> r is Waiting,
        r is Failed ==> frame.kind@ == "stream/error"@,
{
}

/// A frame is read from a request of the host that has a name and a method, where it is of the session
/// that is asked for or an error of the whole stream.
pub proof fn lemma_read_frame(
    envelope: &Json,
    session_id: Option<&str>,
    r: Option<DshEventFrame>,
)
    requires
        call_ensures(read_frame, (envelope, session_id), r),
    ensures
        r is Some ==> envelope@.text_at("type"@) == Some("server-request"@) && envelope@.text_at(
            "rpcId"@,
        ) is Some && envelope@.text_at("method"@) is Some,
        session_id is None && envelope@.text_at("type"@) == Some("server-request"@)
            && envelope@.text_at("rpcId"@) is Some && envelope@.text_at("method"@) is Some
            ==> r is Some,
        envelope@.text_at("type"@) == Some("server-request"@) && envelope@.text_at("rpcId"@) is Some
            && envelope@.text_at("method"@) == Some("stream/error"@) ==> r is Some,
        session_id matches Some(id) ==> (envelope@.text_at("method"@) != Some("stream/error"@) ==> (
        r is Some ==> (envelope@.field("payload"@) matches Some(p) && p.text_at("sessionId"@)
            == Some(id@)))),
        session_id matches Some(id) ==> (envelope@.text_at("type"@) == Some("server-request"@)
            && envelope@.text_at("rpcId"@) is Some && envelope@.text_at("method"@) is Some && (
        envelope@.field("payload"@) matches Some(p) && p.text_at("sessionId"@) == Some(id@))
            ==> r is Some),
        r matches Some(f) ==> envelope@.text_at("method"@) == Some(f.kind@) && envelope@.text_at(
            "rpcId"@,
        ) == Some(f.rpc_id@),
{
}

/// What is wrong with a message that is left out is said, where anything is.
pub proof fn lemma_fault(envelope: Doc)
    ensures
        envelope.text_at("type"@) != Some("server-request"@) ==> fault(envelope) == Some(
            Dropped::NotARequest,
        ),
        envelope.text_at("type"@) == Some("server-request"@) && envelope.text_at("rpcId"@) is None
            ==> fault(envelope) == Some(Dropped::NoRpcId),
        envelope.text_at("type"@) == Some("server-request"@) && envelope.text_at("rpcId"@) is Some
            && envelope.text_at("method"@) is None ==> fault(envelope) == Some(Dropped::NoMethod),
        envelope.text_at("type"@) == Some("server-request"@) && envelope.text_at("rpcId"@) is Some
            && envelope.text_at("method"@) is Some ==> fault(envelope) is None,
{
}

/// A message of a stream is passed over unread where it names neither the session that is asked for
/// nor an error of the whole stream.
pub proof fn lemma_may_concern(message: &str, session_id: Option<&str>, r: bool)
    requires
        call_ensures(may_concern, (message, session_id), r),
    ensures
        session_id is None ==> r,
        session_id matches Some(id) ==> (text::mentions(message@, id@) ==> r),
        text::mentions(message@, "\"type\":\"stream/error\""@) ==> r,
        session_id matches Some(id) ==> (!text::mentions(message@, id@) && !text::mentions(
            message@,
            "\"type\":\"stream/error\""@,
        ) ==> !r),
{
}

}
