//! One turn with the host, from the first step to the last. What has to be done outside is an
//! action; what comes of it is an event.

use super::client::DshPrompt;
use super::events::{self, DshEventFrame, DshTurnCollector, DshTurnResult, Subscription, TurnState};
use crate::json::{Doc, Json};
use crate::text;
use vstd::prelude::*;

verus! {

/// What a turn is for.
#[derive(Debug, Clone, Copy, PartialEq, Eq, Structural)]
pub enum TurnKind {
    /// One question in a session of its own, which is put away afterwards.
    Ask,
    /// One of several turns in a session that goes on.
    Repl,
    /// A trial of the connection.
    Trial,
}

/// How far a turn has come.
#[derive(Debug, Clone, Copy, PartialEq, Eq, Structural)]
pub enum Phase {
    /// The stream of events is being opened.
    Opening,
    /// The session's events are waited for.
    Subscribing,
    /// The prompt is being sent.
    Prompting,
    /// The turn runs.
    Collecting,
    /// The session is being put away.
    Archiving,
    /// All is done.
    Done,
}

/// What has to be done.
#[derive(Debug)]
pub enum Action {
    /// Open the stream of events.
    OpenEvents,
    /// Wait for the session's next frame. So many seconds may pass in this phase in all.
    NextFrame { limit_secs: u64 },
    /// Send this prompt.
    Send(DshPrompt),
    /// Put the session away.
    Archive,
    /// Nothing more.
    Finish,
}

/// What has come of it.
#[derive(Debug)]
pub enum Event {
    /// The stream of events is open, or not, for this reason.
    Opened(Result<(), String>),
    /// A frame has come.
    Frame(DshEventFrame),
    /// The stream has ended.
    Closed,
    /// The stream cannot be read, for this reason.
    Broken(String),
    /// The time is up.
    TimedOut,
    /// The prompt was taken, or not, for this reason.
    Sent(Result<(), String>),
    /// The session was put away, or could not be.
    Archived,
}

/// How long a session's events may be waited for, in seconds.
pub const SUBSCRIPTION_TIMEOUT_SECS: u64 = 15;

/// How long a turn may take, in seconds.
pub const TURN_TIMEOUT_SECS: u64 = 300;

/// How long a turn may take that tries the connection, in seconds.
pub const TRIAL_TIMEOUT_SECS: u64 = 120;

/// How long a turn of some kind may take.
pub open spec fn turn_limit(kind: TurnKind) -> u64 {
    if kind == TurnKind::Trial {
        TRIAL_TIMEOUT_SECS
    } else {
        TURN_TIMEOUT_SECS
    }
}

/// What is said where the session's events were waited for in vain.
pub open spec fn subscription_late(kind: TurnKind) -> Seq<char> {
    if kind == TurnKind::Trial {
        "timed out waiting for DSH session subscription (15s)"@
    } else {
        "timed out waiting for DSH session subscription"@
    }
}

/// What is said where the turn's end was waited for in vain.
pub open spec fn turn_late(kind: TurnKind) -> Seq<char> {
    if kind == TurnKind::Trial {
        "timed out waiting for DSH turn/end (120s)"@
    } else {
        "timed out waiting for DSH turn"@
    }
}

/// What a turn has come to: nothing yet, a session whose events come, a reply and why the turn
/// has ended, or a reason why there is none.
pub enum Outcome {
    Open,
    Subscribed,
    Reply { text: Seq<char>, reason: Doc },
    Failure { why: Seq<char> },
}

/// A turn.
#[derive(Debug)]
pub struct TurnFlow {
    kind: TurnKind,
    session_id: String,
    message: String,
    only_opens: bool,
    phase: Phase,
    collector: DshTurnCollector,
    result: Option<Result<Option<DshTurnResult>, String>>,
}

/// A turn, apart from how it is kept.
pub struct FlowState {
    pub kind: TurnKind,
    pub message: Seq<char>,
    /// Whether all is done when the session's events come, and no prompt is sent.
    pub only_opens: bool,
    pub phase: Phase,
    pub turn: TurnState,
    pub outcome: Outcome,
}

impl View for TurnFlow {
    type V = FlowState;

    closed spec fn view(&self) -> FlowState {
        FlowState {
            kind: self.kind,
            message: self.message@,
            only_opens: self.only_opens,
            phase: self.phase,
            turn: self.collector@,
            outcome: match self.result {
                None => Outcome::Open,
                Some(Ok(None)) => Outcome::Subscribed,
                Some(Ok(Some(t))) => Outcome::Reply { text: t.text@, reason: t.reason@ },
                Some(Err(why)) => Outcome::Failure { why: why@ },
            },
        }
    }
}

impl FlowState {
    /// Whether a session is put away at the end.
    pub open spec fn archives(self) -> bool {
        self.kind == TurnKind::Ask
    }

    /// The turn when it has come to `outcome`: the session is put away, if it has to be.
    pub open spec fn ended(self, outcome: Outcome) -> FlowState {
        FlowState {
            phase: if self.archives() {
                Phase::Archiving
            } else {
                Phase::Done
            },
            outcome,
            ..self
        }
    }

    /// The turn when it has failed.
    pub open spec fn failed(self, why: Seq<char>) -> FlowState {
        self.ended(Outcome::Failure { why })
    }

    /// Whether the outcome is known exactly where the turn is over.
    pub open spec fn well_formed(self) -> bool {
        &&& self.outcome is Open <==> (self.phase != Phase::Archiving && self.phase != Phase::Done)
        &&& self.phase == Phase::Archiving ==> self.archives()
        &&& self.outcome is Subscribed ==> self.only_opens
        &&& self.only_opens ==> self.phase != Phase::Prompting && self.phase != Phase::Collecting
        &&& self.only_opens ==> !(self.outcome is Reply)
    }
}

/// The turn after a frame, while the session's events are waited for.
pub open spec fn subscribed(s: FlowState, f: DshEventFrame) -> FlowState {
    if events::confirms(s.turn.session_id, f.kind@, f.payload@) {
        if s.only_opens {
            s.ended(Outcome::Subscribed)
        } else {
            FlowState { phase: Phase::Prompting, ..s }
        }
    } else if f.kind@ == "stream/error"@ {
        s.failed("DSH event stream error: "@ + events::stream_error(f.payload@))
    } else {
        s
    }
}

/// The turn after a frame, while it runs.
pub open spec fn gathered(s: FlowState, f: DshEventFrame) -> FlowState {
    if f.kind@ == "stream/error"@ {
        s.failed("DSH event stream error: "@ + events::stream_error(f.payload@))
    } else if !events::is_own_event(s.turn, f.kind@, f.payload@) {
        s
    } else {
        match f.payload@.field("event"@) {
            None => s.failed("DSH session/event has no event"@),
            Some(event) => {
                let next = FlowState { turn: events::after_event(s.turn, event), ..s };
                if events::event_kind(event) == "turn/end"@ {
                    next.ended(
                        Outcome::Reply { text: s.turn.text, reason: events::end_reason(event) },
                    )
                } else {
                    next
                }
            },
        }
    }
}

/// The turn after an event. An event that does not belong to the phase changes nothing.
pub open spec fn stepped(s: FlowState, e: Event) -> FlowState {
    match (s.phase, e) {
        (Phase::Opening, Event::Opened(Ok(_))) => FlowState { phase: Phase::Subscribing, ..s },
        (Phase::Opening, Event::Opened(Err(why))) => s.failed(why@),
        (Phase::Subscribing, Event::Frame(f)) => subscribed(s, f),
        (Phase::Subscribing, Event::Closed) => s.failed(
            "DSH event stream closed before session subscription"@,
        ),
        (Phase::Subscribing, Event::Broken(why)) => s.failed(why@),
        (Phase::Subscribing, Event::TimedOut) => s.failed(subscription_late(s.kind)),
        (Phase::Prompting, Event::Sent(Ok(_))) => FlowState { phase: Phase::Collecting, ..s },
        (Phase::Prompting, Event::Sent(Err(why))) => s.failed(why@),
        (Phase::Collecting, Event::Frame(f)) => gathered(s, f),
        (Phase::Collecting, Event::Closed) => s.failed(
            "DSH event stream closed before turn/end"@,
        ),
        (Phase::Collecting, Event::Broken(why)) => s.failed(why@),
        (Phase::Collecting, Event::TimedOut) => s.failed(turn_late(s.kind)),
        (Phase::Archiving, Event::Archived) => FlowState { phase: Phase::Done, ..s },
        _ => s,
    }
}

/// Whether `a` is what has to be done next.
pub open spec fn is_due(s: FlowState, a: Action) -> bool {
    match s.phase {
        Phase::Opening => a matches Action::OpenEvents,
        Phase::Subscribing => a matches Action::NextFrame { limit_secs } && limit_secs
            == SUBSCRIPTION_TIMEOUT_SECS,
        Phase::Prompting => a matches Action::Send(p) && {
            &&& p.session_id@ == s.turn.session_id
            &&& p.mode@ == "queue"@
            &&& p.content@.len() == 1
            &&& p.content@[0] matches super::client::DshContentBlock::Text { text } && text@
                == s.message
        },
        Phase::Collecting => a matches Action::NextFrame { limit_secs } && limit_secs
            == turn_limit(s.kind),
        Phase::Archiving => a matches Action::Archive,
        Phase::Done => a matches Action::Finish,
    }
}

impl TurnFlow {
    /// Whether the parts of the turn agree.
    pub closed spec fn well_formed(self) -> bool {
        &&& self@.well_formed()
        &&& self.session_id@ == self.collector@.session_id
        &&& self.result matches Some(Ok(Some(t))) ==> t.session_id@ == self.session_id@
    }

    /// A turn in a session that has just been made.
    pub fn start(kind: TurnKind, session_id: &str, message: &str) -> (r: TurnFlow)
        ensures
            r.well_formed(),
            r@ == (FlowState {
                kind,
                message: message@,
                only_opens: false,
                phase: Phase::Opening,
                turn: (TurnState { session_id: session_id@, text: ""@, turn: None }),
                outcome: Outcome::Open,
            }),
    {
        TurnFlow {
            kind,
            session_id: session_id.to_owned(),
            message: message.to_owned(),
            only_opens: false,
            phase: Phase::Opening,
            collector: DshTurnCollector::new(session_id),
            result: None,
        }
    }

    /// The opening of a session that goes on: its events are waited for, and no prompt is sent.
    pub fn start_session(session_id: &str) -> (r: TurnFlow)
        ensures
            r.well_formed(),
            r@ == (FlowState {
                kind: TurnKind::Repl,
                message: ""@,
                only_opens: true,
                phase: Phase::Opening,
                turn: (TurnState { session_id: session_id@, text: ""@, turn: None }),
                outcome: Outcome::Open,
            }),
    {
        TurnFlow {
            kind: TurnKind::Repl,
            session_id: session_id.to_owned(),
            message: "".to_owned(),
            only_opens: true,
            phase: Phase::Opening,
            collector: DshTurnCollector::new(session_id),
            result: None,
        }
    }

    /// A turn in a session whose events are coming.
    pub fn start_prompt(kind: TurnKind, session_id: &str, message: &str) -> (r: TurnFlow)
        ensures
            r.well_formed(),
            r@ == (FlowState {
                kind,
                message: message@,
                only_opens: false,
                phase: Phase::Prompting,
                turn: (TurnState { session_id: session_id@, text: ""@, turn: None }),
                outcome: Outcome::Open,
            }),
    {
        TurnFlow {
            kind,
            session_id: session_id.to_owned(),
            message: message.to_owned(),
            only_opens: false,
            phase: Phase::Prompting,
            collector: DshTurnCollector::new(session_id),
            result: None,
        }
    }

    /// What has to be done next.
    pub fn action(&self) -> (r: Action)
        requires
            self.well_formed(),
        ensures
            is_due(self@, r),
    {
        match self.phase {
            Phase::Opening => Action::OpenEvents,
            Phase::Subscribing => Action::NextFrame { limit_secs: SUBSCRIPTION_TIMEOUT_SECS },
            Phase::Prompting => Action::Send(
                DshPrompt::queued_text(self.session_id.as_str(), self.message.as_str()),
            ),
            Phase::Collecting => Action::NextFrame {
                limit_secs: match self.kind {
                    TurnKind::Trial => TRIAL_TIMEOUT_SECS,
                    _ => TURN_TIMEOUT_SECS,
                },
            },
            Phase::Archiving => Action::Archive,
            Phase::Done => Action::Finish,
        }
    }

    fn end(&mut self, result: Result<Option<DshTurnResult>, String>)
        requires
            old(self).well_formed(),
            old(self)@.outcome is Open,
            match result {
                Ok(Some(t)) => t.session_id@ == old(self)@.turn.session_id && !old(
                    self,
                )@.only_opens,
                Ok(None) => old(self)@.only_opens,
                Err(_) => true,
            },
        ensures
            final(self).well_formed(),
            final(self)@ == old(self)@.ended(
                match result {
                    Ok(Some(t)) => Outcome::Reply { text: t.text@, reason: t.reason@ },
                    Ok(None) => Outcome::Subscribed,
                    Err(why) => Outcome::Failure { why: why@ },
                },
            ),
    {
        self.phase = match self.kind {
            TurnKind::Ask => Phase::Archiving,
            _ => Phase::Done,
        };
        self.result = Some(result);
    }

    fn on_frame(&mut self, f: &DshEventFrame)
        requires
            old(self).well_formed(),
            old(self)@.phase == Phase::Subscribing || old(self)@.phase == Phase::Collecting,
        ensures
            final(self).well_formed(),
            final(self)@ == if old(self)@.phase == Phase::Subscribing {
                subscribed(old(self)@, *f)
            } else {
                gathered(old(self)@, *f)
            },
    {
        match self.phase {
            Phase::Subscribing => match events::check_subscription(f, self.session_id.as_str()) {
                Subscription::Ready => {
                    if self.only_opens {
                        self.end(Ok(None));
                    } else {
                        self.phase = Phase::Prompting;
                    }
                },
                Subscription::Failed(e) => {
                    let why = e.message();
                    self.end(Err(why));
                },
                Subscription::Waiting => {},
            },
            _ => {
                match self.collector.push(f) {
                    Ok(None) => {},
                    Ok(Some(t)) => {
                        self.end(Ok(Some(t)));
                    },
                    Err(e) => {
                        let why = e.message();
                        self.end(Err(why));
                    },
                }
            },
        }
    }

    /// Takes in what has come of the last action.
    pub fn step(&mut self, event: Event)
        requires
            old(self).well_formed(),
        ensures
            final(self).well_formed(),
            final(self)@ == stepped(old(self)@, event),
    {
        match (self.phase, event) {
            (Phase::Opening, Event::Opened(Ok(_))) => {
                self.phase = Phase::Subscribing;
            },
            (Phase::Opening, Event::Opened(Err(why))) => {
                self.end(Err(why));
            },
            (Phase::Subscribing, Event::Frame(f)) => {
                self.on_frame(&f);
            },
            (Phase::Subscribing, Event::Closed) => {
                self.end(Err("DSH event stream closed before session subscription".to_owned()));
            },
            (Phase::Subscribing, Event::Broken(why)) => {
                self.end(Err(why));
            },
            (Phase::Subscribing, Event::TimedOut) => {
                let why = match self.kind {
                    TurnKind::Trial => "timed out waiting for DSH session subscription (15s)",
                    _ => "timed out waiting for DSH session subscription",
                };
                self.end(Err(why.to_owned()));
            },
            (Phase::Prompting, Event::Sent(Ok(_))) => {
                self.phase = Phase::Collecting;
            },
            (Phase::Prompting, Event::Sent(Err(why))) => {
                self.end(Err(why));
            },
            (Phase::Collecting, Event::Frame(f)) => {
                self.on_frame(&f);
            },
            (Phase::Collecting, Event::Closed) => {
                self.end(Err("DSH event stream closed before turn/end".to_owned()));
            },
            (Phase::Collecting, Event::Broken(why)) => {
                self.end(Err(why));
            },
            (Phase::Collecting, Event::TimedOut) => {
                let why = match self.kind {
                    TurnKind::Trial => "timed out waiting for DSH turn/end (120s)",
                    _ => "timed out waiting for DSH turn",
                };
                self.end(Err(why.to_owned()));
            },
            (Phase::Archiving, Event::Archived) => {
                self.phase = Phase::Done;
            },
            _ => {},
        }
    }

    /// What the turn has come to, when it is over: the reply of the session, why the turn has
    /// ended, or nothing where the session was only to be opened.
    pub fn finish(self) -> (r: Result<Option<DshTurnResult>, String>)
        requires
            self.well_formed(),
            self@.phase == Phase::Done,
        ensures
            match r {
                Ok(Some(t)) => {
                    &&& self@.outcome == (Outcome::Reply { text: t.text@, reason: t.reason@ })
                    &&& t.session_id@ == self@.turn.session_id
                },
                Ok(None) => self@.outcome is Subscribed,
                Err(why) => self@.outcome == (Outcome::Failure { why: why@ }),
            },
    {
        match self.result {
            Some(r) => r,
            None => Err("".to_owned()),
        }
    }
}

/// A session that was made for one question is put away before the turn is over, whatever has
/// happened: the turn is never over while it was not being put away just before.
pub proof fn lemma_session_is_archived(s: FlowState, e: Event)
    requires
        s.archives(),
        s.phase != Phase::Done,
        stepped(s, e).phase == Phase::Done,
    ensures
        s.phase == Phase::Archiving,
        stepped(s, e).outcome == s.outcome,
{
}

/// Every step keeps the parts of a turn in agreement, and keeps its kind, its message, its session
/// and whether it only opens the session.
pub proof fn lemma_step_keeps(s: FlowState, e: Event)
    requires
        s.well_formed(),
    ensures
        stepped(s, e).well_formed(),
        stepped(s, e).kind == s.kind,
        stepped(s, e).message == s.message,
        stepped(s, e).only_opens == s.only_opens,
        stepped(s, e).turn.session_id == s.turn.session_id,
{
}

/// How far a phase is from the first one.
pub open spec fn rank(phase: Phase) -> int {
    match phase {
        Phase::Opening => 0,
        Phase::Subscribing => 1,
        Phase::Prompting => 2,
        Phase::Collecting => 3,
        Phase::Archiving => 4,
        Phase::Done => 5,
    }
}

/// A turn never goes back to an earlier phase.
pub proof fn lemma_phases_advance(s: FlowState, e: Event)
    ensures
        rank(stepped(s, e).phase) >= rank(s.phase),
{
}

/// The prompt is sent only after this session's events are known to come: nothing but a frame that
/// says so of this session leads to sending it.
pub proof fn lemma_prompt_after_subscription(s: FlowState, e: Event)
    requires
        s.phase != Phase::Prompting,
        stepped(s, e).phase == Phase::Prompting,
    ensures
        s.phase == Phase::Subscribing,
        !s.only_opens,
        e matches Event::Frame(f) && f.kind@ == "session/subscribed"@ && f.payload@.text_at(
            "sessionId"@,
        ) == Some(s.turn.session_id),
{
}

/// An outcome, once there is one, stays.
pub proof fn lemma_outcome_stays(s: FlowState, e: Event)
    requires
        s.well_formed(),
        !(s.outcome is Open),
    ensures
        stepped(s, e).outcome == s.outcome,
{
}

/// The directory of a turn's session, below the directory for state.
pub fn workspace_dir(state_dir: &str, kind: TurnKind) -> (r: String)
    ensures
        r@ == crate::path::below(
            state_dir@,
            match kind {
                TurnKind::Ask => "dsh-ask"@,
                TurnKind::Repl => "dsh-repl"@,
                TurnKind::Trial => "dsh-test"@,
            },
        ),
{
    let name = match kind {
        TurnKind::Ask => "dsh-ask",
        TurnKind::Repl => "dsh-repl",
        TurnKind::Trial => "dsh-test",
    };
    crate::path::join(state_dir, name)
}

/// What is said of the turn that tries the connection.
pub fn trial_report(chinese: bool, reason: &Json, reply: &str) -> (r: String)
    ensures
        r@ == (if chinese {
            "回合结束："@
        } else {
            "Turn finished:"@
        }) + " "@ + crate::json::rendered(reason@) + "\n"@ + (if chinese {
            "Agent 回复："@
        } else {
            "Agent reply:"@
        }) + "\n"@ + if reply@.len() == 0 {
            "（无文本）"@
        } else {
            reply@
        },
{
    let head = if chinese {
        "回合结束："
    } else {
        "Turn finished:"
    };
    let label = if chinese {
        "Agent 回复："
    } else {
        "Agent reply:"
    };
    let body = if reply.is_empty() {
        "（无文本）"
    } else {
        reply
    };
    let mut out = text::cat5(head, " ", reason.to_text().as_str(), "\n", label);
    out.append("\n");
    out.append(body);
    out
}

/// What breaks a stream, ends it or is late ends the turn with a failure, whenever it is waited for.
pub proof fn lemma_breaks_fail(s: FlowState, e: Event)
    requires
        s.phase == Phase::Subscribing || s.phase == Phase::Collecting,
        e is Closed || e is Broken || e is TimedOut,
    ensures
        stepped(s, e).outcome is Failure,
        stepped(s, e).phase == Phase::Archiving || stepped(s, e).phase == Phase::Done,
        e matches Event::Broken(why) ==> stepped(s, e).outcome == (Outcome::Failure { why: why@ }),
{
}

/// What cannot be opened or sent fails for the reason that is given.
pub proof fn lemma_refusals_fail(s: FlowState, why: String)
    ensures
        s.phase == Phase::Opening ==> stepped(s, Event::Opened(Err(why))).outcome == (
        Outcome::Failure { why: why@ }),
        s.phase == Phase::Prompting ==> stepped(s, Event::Sent(Err(why))).outcome == (
        Outcome::Failure { why: why@ }),
{
}

/// The session's events are waited for a quarter of a minute, a turn for five minutes, and a turn
/// that only tries the connection for two.
pub proof fn lemma_limits(s: FlowState, a: Action)
    requires
        is_due(s, a),
    ensures
        a matches Action::NextFrame { limit_secs } ==> {
            &&& s.phase == Phase::Subscribing ==> limit_secs == 15
            &&& s.phase == Phase::Collecting && s.kind == TurnKind::Trial ==> limit_secs == 120
            &&& s.phase == Phase::Collecting && s.kind != TurnKind::Trial ==> limit_secs == 300
        },
        a is Archive ==> s.phase == Phase::Archiving,
        a is Send <==> s.phase == Phase::Prompting,
{
}

/// A frame of another session that is no error leaves a turn as it was.
pub proof fn lemma_other_frames(s: FlowState, f: DshEventFrame)
    requires
        f.kind@ != "stream/error"@,
        f.payload@.text_at("sessionId"@) != Some(s.turn.session_id),
    ensures
        s.phase == Phase::Collecting || s.phase == Phase::Subscribing ==> stepped(
            s,
            Event::Frame(f),
        ) == s,
{
}

/// A turn ends with its reply at the event that ends it, and goes on at every other event of its own.
pub proof fn lemma_turn_ends(s: FlowState, f: DshEventFrame, event: Doc)
    requires
        s.phase == Phase::Collecting,
        f.kind@ == "session/event"@,
        f.payload@.text_at("sessionId"@) == Some(s.turn.session_id),
        f.payload@.field("event"@) == Some(event),
    ensures
        event.text_at("type"@) == Some("turn/end"@) ==> {
            let next = stepped(s, Event::Frame(f));
            &&& next.outcome matches Outcome::Reply { text, reason } && text == s.turn.text
            &&& next.phase == (if s.kind == TurnKind::Ask {
                Phase::Archiving
            } else {
                Phase::Done
            })
        },
        event.text_at("type"@) != Some("turn/end"@) ==> {
            let next = stepped(s, Event::Frame(f));
            &&& next.phase == Phase::Collecting
            &&& next.outcome == s.outcome
        },
{
    reveal_strlit("session/event");
    reveal_strlit("stream/error");
    reveal_strlit("turn/end");
    reveal_strlit("");
    assert("session/event"@.len() == 13 && "stream/error"@.len() == 12);
    assert("turn/end"@.len() == 8 && ""@.len() == 0);
}

/// A turn is late for the session's events or for its end, and says which.
pub proof fn lemma_late(s: FlowState)
    ensures
        s.phase == Phase::Subscribing ==> (stepped(s, Event::TimedOut).outcome matches
            Outcome::Failure { why } && crate::text::mentions(why, "session subscription"@)),
        s.phase == Phase::Collecting ==> (stepped(s, Event::TimedOut).outcome matches
            Outcome::Failure { why } && crate::text::mentions(why, "DSH turn"@)),
        s.kind == TurnKind::Trial && s.phase == Phase::Subscribing ==> (stepped(
            s,
            Event::TimedOut,
        ).outcome matches Outcome::Failure { why } && crate::text::finishes(why, "(15s)"@)),
        s.kind == TurnKind::Trial && s.phase == Phase::Collecting ==> (stepped(
            s,
            Event::TimedOut,
        ).outcome matches Outcome::Failure { why } && crate::text::finishes(why, "(120s)"@)),
{
    reveal_strlit("timed out waiting for DSH session subscription (15s)");
    reveal_strlit("timed out waiting for DSH session subscription");
    reveal_strlit("timed out waiting for DSH turn/end (120s)");
    reveal_strlit("timed out waiting for DSH turn");
    reveal_strlit("session subscription");
    reveal_strlit("DSH turn");
    reveal_strlit("(15s)");
    reveal_strlit("(120s)");
    let a = "timed out waiting for DSH session subscription (15s)"@;
    let b = "timed out waiting for DSH session subscription"@;
    let c = "timed out waiting for DSH turn/end (120s)"@;
    let d = "timed out waiting for DSH turn"@;
    assert(a.subrange(26, 46) =~= "session subscription"@);
    assert(crate::text::occurs_at(a, "session subscription"@, 26));
    assert(b.subrange(26, 46) =~= "session subscription"@);
    assert(crate::text::occurs_at(b, "session subscription"@, 26));
    assert(c.subrange(22, 30) =~= "DSH turn"@);
    assert(crate::text::occurs_at(c, "DSH turn"@, 22));
    assert(d.subrange(22, 30) =~= "DSH turn"@);
    assert(crate::text::occurs_at(d, "DSH turn"@, 22));
    assert(a.subrange(a.len() - 5, a.len() - 5 + 5) =~= "(15s)"@);
    assert(c.subrange(c.len() - 6, c.len() - 6 + 6) =~= "(120s)"@);
}

}
