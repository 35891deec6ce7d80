//! What makes the assistant answer in a group, and for how long a talk goes on.

use crate::text;
use vstd::prelude::*;

verus! {

/// Why a message is answered.
#[derive(Debug, Clone, Copy, PartialEq, Eq, Structural)]
pub enum TriggerKind {
    /// It calls the assistant.
    Direct,
    /// It is a matter of moderation.
    Moderation,
    /// It takes the place of a message that was to be answered.
    Supersede,
    /// It goes on with a talk.
    Continuation,
    /// Chance has picked it.
    Probability,
}

impl TriggerKind {
    /// The reason's name.
    pub open spec fn name(self) -> Seq<char> {
        match self {
            TriggerKind::Direct => "direct"@,
            TriggerKind::Moderation => "moderation"@,
            TriggerKind::Supersede => "supersede"@,
            TriggerKind::Continuation => "continuation"@,
            TriggerKind::Probability => "probability"@,
        }
    }

    /// The reason's name.
    pub fn as_str(self) -> (r: &'static str)
        ensures
            r@ == self.name(),
    {
        match self {
            TriggerKind::Direct => "direct",
            TriggerKind::Moderation => "moderation",
            TriggerKind::Supersede => "supersede",
            TriggerKind::Continuation => "continuation",
            TriggerKind::Probability => "probability",
        }
    }

    /// The reason of that name.
    pub fn parse(name: &str) -> (r: Option<TriggerKind>)
        ensures
            r matches Some(k) ==> k.name() == name@,
            r is None ==> forall|k: TriggerKind| (#[trigger] k.name()) != name@,
    {
        if text::same(name, "direct") {
            Some(TriggerKind::Direct)
        } else if text::same(name, "moderation") {
            Some(TriggerKind::Moderation)
        } else if text::same(name, "supersede") {
            Some(TriggerKind::Supersede)
        } else if text::same(name, "continuation") {
            Some(TriggerKind::Continuation)
        } else if text::same(name, "probability") {
            Some(TriggerKind::Probability)
        } else {
            None
        }
    }
}

/// No two reasons share a name.
pub proof fn lemma_names_differ(a: TriggerKind, b: TriggerKind)
    ensures
        a.name() == b.name() ==> a == b,
{
    reveal_strlit("direct");
    reveal_strlit("moderation");
    reveal_strlit("supersede");
    reveal_strlit("continuation");
    reveal_strlit("probability");
    if a != b && a.name() == b.name() {
        assert(a.name().len() == b.name().len());
        assert("supersede"@[0] == 's');
        assert("moderation"@[0] == 'm');
    }
}

/// Why a message is answered: that it calls the assistant comes before that it is a matter of
/// moderation, that before the reason of the message whose place it takes, that before that it
/// goes on with a talk, and chance comes last.
pub open spec fn selected(
    direct: bool,
    moderation: bool,
    inherited: Option<TriggerKind>,
    continuation: bool,
    probability: bool,
) -> Option<TriggerKind> {
    if direct {
        Some(TriggerKind::Direct)
    } else if moderation {
        Some(TriggerKind::Moderation)
    } else if inherited is Some {
        inherited
    } else if continuation {
        Some(TriggerKind::Continuation)
    } else if probability {
        Some(TriggerKind::Probability)
    } else {
        None
    }
}

/// Why a message is answered.
pub fn select_trigger(
    direct: bool,
    moderation: bool,
    inherited: Option<TriggerKind>,
    continuation: bool,
    probability: bool,
) -> (r: Option<TriggerKind>)
    ensures
        r == selected(direct, moderation, inherited, continuation, probability),
{
    if direct {
        Some(TriggerKind::Direct)
    } else if moderation {
        Some(TriggerKind::Moderation)
    } else if inherited.is_some() {
        inherited
    } else if continuation {
        Some(TriggerKind::Continuation)
    } else if probability {
        Some(TriggerKind::Probability)
    } else {
        None
    }
}

/// Why a message is answered where it may be that nothing but moderation is judged.
pub fn select_trigger_for_policy(
    judged: bool,
    direct: bool,
    moderation: bool,
    inherited: Option<TriggerKind>,
    continuation: bool,
    probability: bool,
) -> (r: Option<TriggerKind>)
    ensures
        judged ==> r == selected(direct, moderation, inherited, continuation, probability),
        !judged ==> r == selected(false, moderation, None, false, false),
{
    if judged {
        select_trigger(direct, moderation, inherited, continuation, probability)
    } else {
        select_trigger(false, moderation, None, false, false)
    }
}

/// A message that takes the place of another keeps the reason that the other had, unless it has
/// a stronger one of its own.
pub proof fn lemma_takeover_keeps_the_trigger(
    origin: TriggerKind,
    continuation: bool,
    probability: bool,
)
    ensures
        selected(false, false, Some(origin), continuation, probability) == Some(origin),
{
}

/// How the judging of messages is set up.
#[derive(Debug)]
pub struct RealContextPluginSettings {
    pub takeover_direct_trigger_enable: bool,
    pub privileged_direct_trigger_skip_active_judgement: bool,
    pub continuation_window_seconds: u64,
}

impl Default for RealContextPluginSettings {
    fn default() -> (r: RealContextPluginSettings)
        ensures
            r.takeover_direct_trigger_enable,
            r.privileged_direct_trigger_skip_active_judgement,
            r.continuation_window_seconds == 15,
    {
        RealContextPluginSettings {
            takeover_direct_trigger_enable: true,
            privileged_direct_trigger_skip_active_judgement: true,
            continuation_window_seconds: 15,
        }
    }
}

/// Whether a message is judged: not where judging is passed over, and one that calls the assistant
/// only where such messages are judged, and not where its sender is privileged and spared that.
pub fn active_judgement_allowed(
    settings: &RealContextPluginSettings,
    direct: bool,
    privileged: bool,
    passed_over: bool,
) -> (r: bool)
    ensures
        r == (!passed_over && (direct ==> settings.takeover_direct_trigger_enable && !(privileged
            && settings.privileged_direct_trigger_skip_active_judgement))),
{
    if passed_over {
        false
    } else if !direct {
        true
    } else {
        settings.takeover_direct_trigger_enable && !(privileged
            && settings.privileged_direct_trigger_skip_active_judgement)
    }
}

/// What is told to a model that answers a message that chance has picked.
pub const JOIN_IN_NOTICE: &'static str = "<qq-join-in>Even though this message does not @-mention you, still reply with one message that fits the topic and the mood of the room.</qq-join-in>";

/// What is told to the model of the reason: something where chance has picked the message, and
/// nothing otherwise.
pub fn probability_reply_notice(kind: TriggerKind) -> (r: Option<&'static str>)
    ensures
        kind is Probability ==> (r matches Some(n) && n@ == JOIN_IN_NOTICE@),
        !(kind is Probability) ==> r is None,
{
    match kind {
        TriggerKind::Probability => Some(JOIN_IN_NOTICE),
        _ => None,
    }
}

/// A talk that goes on: with whom, and up to when, in nanoseconds.
#[derive(Debug)]
pub struct Continuation {
    pub sender: String,
    pub until: u128,
}

/// What is known of the talks in a group.
#[derive(Debug)]
pub struct SessionRuntime {
    pub started: u64,
    pub continuation: Option<Continuation>,
}

/// The end of the window that begins at a time.
pub open spec fn window_end(now: u64, seconds: u64) -> int {
    now + seconds * 1_000_000_000
}

/// Whether a message goes on with a talk.
pub open spec fn goes_on(s: SessionRuntime, sender: Seq<char>, now: u64, enabled: bool) -> bool {
    enabled && (s.continuation matches Some(c) && c.sender@ == sender && now <= c.until)
}

impl SessionRuntime {
    /// No talk goes on.
    pub fn new(started: u64) -> (r: SessionRuntime)
        ensures
            r.started == started,
            r.continuation is None,
    {
        SessionRuntime { started, continuation: None }
    }

    /// A talk goes on with a sender, for as long as is set, from now on.
    pub fn mark_continuation(
        &mut self,
        sender: &str,
        now: u64,
        settings: &RealContextPluginSettings,
    )
        ensures
            final(self).started == old(self).started,
            final(self).continuation matches Some(c) && c.sender@ == sender@ && c.until
                == window_end(now, settings.continuation_window_seconds),
    {
        let seconds: u64 = settings.continuation_window_seconds;
        assert(seconds * 1_000_000_000 <= u64::MAX * 1_000_000_000);
        let until: u128 = now as u128 + seconds as u128 * 1_000_000_000;
        self.continuation = Some(Continuation { sender: sender.to_owned(), until });
    }

    /// Whether a message goes on with a talk: it comes from the one with whom there is a talk, and
    /// not behind its end.
    pub fn continuation_match(&self, sender: &str, now: u64, enabled: bool) -> (r: bool)
        ensures
            r == goes_on(*self, sender@, now, enabled),
    {
        if !enabled {
            return false;
        }
        match &self.continuation {
            Some(c) => text::same(c.sender.as_str(), sender) && now as u128 <= c.until,
            None => false,
        }
    }
}

/// The window is open up to its very end and not a moment longer, and to nobody else.
pub proof fn lemma_window(s: SessionRuntime, sender: Seq<char>, start: u64, now: u64, seconds: u64)
    requires
        s.continuation matches Some(c) && c.sender@ == sender && c.until == window_end(
            start,
            seconds,
        ),
    ensures
        goes_on(s, sender, now, true) <==> now <= start + seconds * 1_000_000_000,
        forall|other: Seq<char>| other != sender ==> !(#[trigger] goes_on(s, other, now, true)),
{
}

/// An answer that is on its way: since when, why, whether it is settled that it comes, the
/// reactions that were put on messages for it, and the messages that it answers.
#[derive(Debug)]
pub struct PendingReply {
    pub started: u64,
    pub trigger: TriggerKind,
    pub committed: bool,
    pub reactions: Vec<(String, String)>,
    pub targets: Vec<String>,
}

/// The reason that a message takes over from an answer on its way: only from one that is settled.
pub fn inherited_trigger(pending: &Option<PendingReply>) -> (r: Option<TriggerKind>)
    ensures
        r == match pending {
            Some(p) => if p.committed {
                Some(p.trigger)
            } else {
                None
            },
            None => None,
        },
{
    match pending {
        Some(p) => {
            if p.committed {
                Some(p.trigger)
            } else {
                None
            }
        },
        None => None,
    }
}

/// Reactions apart from how they are kept.
pub open spec fn reaction_list(v: Seq<(String, String)>) -> Seq<(Seq<char>, Seq<char>)> {
    v.map_values(|r: (String, String)| (r.0@, r.1@))
}

/// The same reactions on one message.
pub open spec fn moved(reactions: Seq<(Seq<char>, Seq<char>)>, message: Seq<char>) -> Seq<
    (Seq<char>, Seq<char>),
> {
    reactions.map_values(|r: (Seq<char>, Seq<char>)| (message, r.1))
}

impl PendingReply {
    /// Lets a message take the place of the one that was to be answered: it is answered too, for
    /// the same reason, the reactions move to it, and the time begins anew. Gives the reactions
    /// that are to be taken away.
    pub fn confirm_supersede(&mut self, message: &str, target: String, now: u64) -> (r: Vec<
        (String, String),
    >)
        ensures
            reaction_list(r@) == reaction_list(old(self).reactions@),
            reaction_list(final(self).reactions@) == moved(
                reaction_list(old(self).reactions@),
                message@,
            ),
            text::views(final(self).targets@) == text::views(old(self).targets@).push(target@),
            final(self).trigger == old(self).trigger,
            final(self).committed == old(self).committed,
            final(self).started == now,
    {
        let ghost before = reaction_list(self.reactions@);
        let ghost all = moved(before, message@);
        let mut taken: Vec<(String, String)> = Vec::new();
        let mut put: Vec<(String, String)> = Vec::new();
        let mut i: usize = 0;
        assert(reaction_list(taken@) =~= before.take(0));
        assert(reaction_list(put@) =~= all.take(0));
        while i < self.reactions.len()
            invariant
                i <= self.reactions@.len(),
                *self == *old(self),
                before == reaction_list(self.reactions@),
                all == moved(before, message@),
                reaction_list(taken@) == before.take(i as int),
                reaction_list(put@) == all.take(i as int),
            decreases self.reactions@.len() - i,
        {
            let ghost taken_before = taken@;
            let ghost put_before = put@;
            taken.push((self.reactions[i].0.clone(), self.reactions[i].1.clone()));
            put.push((message.to_owned(), self.reactions[i].1.clone()));
            assert(before.take(i + 1) =~= before.take(i as int).push(before[i as int]));
            assert(all.take(i + 1) =~= all.take(i as int).push(all[i as int]));
            assert(reaction_list(taken@) =~= reaction_list(taken_before).push(before[i as int]));
            assert(reaction_list(put@) =~= reaction_list(put_before).push(all[i as int]));
            i = i + 1;
        }
        assert(before.take(before.len() as int) =~= before);
        assert(all.take(all.len() as int) =~= all);
        self.reactions = put;
        proof {
            text::lemma_views_push(self.targets@, target);
        }
        self.targets.push(target);
        self.started = now;
        taken
    }
}

/// A message is taken up where there is any cause, and for the first of its causes: that it calls
/// the assistant, that it is a matter of moderation, what it takes over, that a talk goes on, chance.
pub proof fn lemma_selected(
    direct: bool,
    moderation: bool,
    inherited: Option<TriggerKind>,
    continuation: bool,
    probability: bool,
)
    ensures
        ({
            let r = selected(direct, moderation, inherited, continuation, probability);
            &&& r is None <==> !direct && !moderation && inherited is None && !continuation
                && !probability
            &&& direct ==> r == Some(TriggerKind::Direct)
            &&& !direct && moderation ==> r == Some(TriggerKind::Moderation)
            &&& !direct && !moderation && inherited is Some ==> r == inherited
            &&& !direct && !moderation && inherited is None && continuation ==> r == Some(
                TriggerKind::Continuation,
            )
            &&& r == Some(TriggerKind::Probability) && inherited is None ==> probability
                && !continuation && !direct && !moderation
        }),
{
}

/// Reactions that move to a message are as many as they were, and are the same ones.
pub proof fn lemma_moved(reactions: Seq<(Seq<char>, Seq<char>)>, message: Seq<char>, i: int)
    ensures
        moved(reactions, message).len() == reactions.len(),
        0 <= i < reactions.len() ==> moved(reactions, message)[i].0 == message && moved(
            reactions,
            message,
        )[i].1 == reactions[i].1,
{
}

/// Without judgement a message is taken up only for moderation; with it, for any of its causes.
pub proof fn lemma_policy(
    judged: bool,
    direct: bool,
    moderation: bool,
    inherited: Option<TriggerKind>,
    continuation: bool,
    probability: bool,
    r: Option<TriggerKind>,
)
    requires
        call_ensures(
            select_trigger_for_policy,
            (judged, direct, moderation, inherited, continuation, probability),
            r,
        ),
    ensures
        !judged ==> (r is Some <==> moderation),
        !judged && moderation ==> r == Some(TriggerKind::Moderation),
        judged && direct ==> r == Some(TriggerKind::Direct),
        judged ==> (r is None <==> !direct && !moderation && inherited is None && !continuation
            && !probability),
{
}

/// A message that was passed over is not judged; one that calls the assistant is judged only where
/// that is set, and not from someone who is excepted; every other one is.
pub proof fn lemma_judgement(
    settings: &RealContextPluginSettings,
    direct: bool,
    privileged: bool,
    passed_over: bool,
    r: bool,
)
    requires
        call_ensures(active_judgement_allowed, (settings, direct, privileged, passed_over), r),
    ensures
        passed_over ==> !r,
        !passed_over && !direct ==> r,
        direct && !settings.takeover_direct_trigger_enable ==> !r,
        direct && privileged && settings.privileged_direct_trigger_skip_active_judgement ==> !r,
        !passed_over && direct && settings.takeover_direct_trigger_enable && !privileged ==> r,
        !passed_over && direct && settings.takeover_direct_trigger_enable
            && !settings.privileged_direct_trigger_skip_active_judgement ==> r,
{
}

/// A trigger is taken over exactly from a reply that is settled.
pub proof fn lemma_inherited(pending: &Option<PendingReply>, r: Option<TriggerKind>)
    requires
        call_ensures(inherited_trigger, (pending,), r),
    ensures
        r is Some <==> (pending matches Some(p) && p.committed),
        pending matches Some(p) ==> (p.committed ==> r == Some(p.trigger)),
{
}

/// Only a message that chance has picked is joined in with a notice.
pub proof fn lemma_notice(kind: TriggerKind, r: Option<&'static str>)
    requires
        call_ensures(probability_reply_notice, (kind,), r),
    ensures
        r is Some <==> kind is Probability,
{
}

/// A talk goes on for its sender alone, for as long as is set, and only where that is switched on.
pub proof fn lemma_continues(
    s: &mut SessionRuntime,
    sender: &str,
    start: u64,
    settings: &RealContextPluginSettings,
    other: Seq<char>,
    now: u64,
)
    requires
        call_ensures(SessionRuntime::mark_continuation, (s, sender, start, settings), ()),
    ensures
        now <= start + settings.continuation_window_seconds * 1_000_000_000 <==> goes_on(
            *final(s),
            sender@,
            now,
            true,
        ),
        !goes_on(*final(s), sender@, now, false),
        other != sender@ ==> !goes_on(*final(s), other, now, true),
        final(s).started == old(s).started,
{
}

}
