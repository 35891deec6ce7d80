//! What makes the assistant answer.

use nonoka::trigger::{
    active_judgement_allowed, inherited_trigger, probability_reply_notice, select_trigger,
    select_trigger_for_policy, PendingReply, RealContextPluginSettings, SessionRuntime,
    TriggerKind,
};

const SECOND: u64 = 1_000_000_000;

#[test]
fn explicit_direct_trigger_precedes_moderation_only_candidates() {
    assert_eq!(
        select_trigger(true, true, Some(TriggerKind::Supersede), true, true),
        Some(TriggerKind::Direct)
    );
    assert_eq!(
        select_trigger(false, true, Some(TriggerKind::Supersede), true, true),
        Some(TriggerKind::Moderation)
    );
}

#[test]
fn a_takeover_inherits_the_original_trigger() {
    for origin in [
        TriggerKind::Probability,
        TriggerKind::Direct,
        TriggerKind::Moderation,
        TriggerKind::Continuation,
        TriggerKind::Supersede,
    ] {
        assert_eq!(
            select_trigger(false, false, Some(origin), true, true),
            Some(origin)
        );
    }
    assert_eq!(
        select_trigger(false, false, None, true, true),
        Some(TriggerKind::Continuation)
    );
    assert_eq!(
        select_trigger(false, false, None, false, true),
        Some(TriggerKind::Probability)
    );
    assert_eq!(select_trigger(false, false, None, false, false), None);
}

#[test]
fn direct_trigger_judgement_respects_takeover_and_privileged_bypass() {
    let mut settings = RealContextPluginSettings::default();
    settings.takeover_direct_trigger_enable = false;
    assert!(!active_judgement_allowed(&settings, true, false, false));
    assert!(active_judgement_allowed(&settings, false, false, false));

    settings.takeover_direct_trigger_enable = true;
    assert!(active_judgement_allowed(&settings, true, false, false));
    assert!(!active_judgement_allowed(&settings, true, true, false));

    settings.privileged_direct_trigger_skip_active_judgement = false;
    assert!(active_judgement_allowed(&settings, true, true, false));
    assert!(!active_judgement_allowed(&settings, false, false, true));
    assert!(!active_judgement_allowed(&settings, true, true, true));
}

#[test]
fn skipped_social_judgement_preserves_moderation_only_trigger() {
    assert_eq!(
        select_trigger_for_policy(false, true, true, Some(TriggerKind::Supersede), true, true),
        Some(TriggerKind::Moderation)
    );
    assert_eq!(
        select_trigger_for_policy(true, true, true, Some(TriggerKind::Supersede), true, true),
        Some(TriggerKind::Direct)
    );
    assert_eq!(
        select_trigger_for_policy(false, true, false, Some(TriggerKind::Direct), true, true),
        None
    );
}

#[test]
fn continuation_window_is_inclusive_at_its_boundary() {
    let settings = RealContextPluginSettings::default();
    assert_eq!(settings.continuation_window_seconds, 15);
    let window = settings.continuation_window_seconds * SECOND;
    let started = 77;
    let mut session = SessionRuntime::new(started);
    session.mark_continuation("30000", started, &settings);

    assert!(session.continuation_match("30000", started + window, true));
    assert!(!session.continuation_match("30000", started + window + 1, true));
    assert!(!session.continuation_match("30000", started, false));
}

#[test]
fn replying_inside_the_window_keeps_extending_it() {
    let settings = RealContextPluginSettings::default();
    let window = settings.continuation_window_seconds * SECOND;
    let mut now = 5;
    let mut session = SessionRuntime::new(now);
    session.mark_continuation("30000", now, &settings);

    for _ in 0..10 {
        now += window - SECOND;
        assert!(
            session.continuation_match("30000", now, true),
            "the window should still be open"
        );
        session.mark_continuation("30000", now, &settings);
    }

    assert!(!session.continuation_match("30000", now + window + SECOND, true));
}

#[test]
fn a_different_speaker_does_not_inherit_the_window() {
    let settings = RealContextPluginSettings::default();
    let mut session = SessionRuntime::new(0);
    assert!(!session.continuation_match("30000", 0, true));
    session.mark_continuation("30000", 0, &settings);
    assert!(!session.continuation_match("40000", 0, true));
}

#[test]
fn the_join_in_notice_concedes_and_then_overrides() {
    let notice = probability_reply_notice(TriggerKind::Probability).unwrap();
    assert!(notice.contains("Even though this message does not @-mention you"));
    assert!(notice.contains("still reply with one message"));
    assert!(notice.contains("the mood of the room"));
    assert!(notice.is_ascii());
    assert!(notice.starts_with("<qq-join-in>"));
    for kind in [
        TriggerKind::Direct,
        TriggerKind::Moderation,
        TriggerKind::Supersede,
        TriggerKind::Continuation,
    ] {
        assert_eq!(probability_reply_notice(kind), None);
    }
}

#[test]
fn names_of_triggers_are_read_back() {
    for kind in [
        TriggerKind::Direct,
        TriggerKind::Moderation,
        TriggerKind::Supersede,
        TriggerKind::Continuation,
        TriggerKind::Probability,
    ] {
        assert_eq!(TriggerKind::parse(kind.as_str()), Some(kind));
    }
    assert_eq!(TriggerKind::parse("Direct"), None);
}

fn pending(committed: bool) -> PendingReply {
    PendingReply {
        started: 3,
        trigger: TriggerKind::Probability,
        committed,
        reactions: vec![("message-1".to_string(), "289".to_string())],
        targets: vec!["message-1".to_string()],
    }
}

#[test]
fn only_a_settled_answer_hands_its_trigger_on() {
    assert_eq!(
        inherited_trigger(&Some(pending(true))),
        Some(TriggerKind::Probability)
    );
    assert_eq!(inherited_trigger(&Some(pending(false))), None);
    assert_eq!(inherited_trigger(&None), None);
}

#[test]
fn a_correction_moves_reactions_and_restarts_the_window() {
    let mut reply = pending(true);
    let taken = reply.confirm_supersede("message-2", "message-2".to_string(), 9);
    assert_eq!(taken, vec![("message-1".to_string(), "289".to_string())]);
    assert_eq!(
        reply.reactions,
        vec![("message-2".to_string(), "289".to_string())]
    );
    assert_eq!(reply.targets, vec!["message-1", "message-2"]);
    assert_eq!(reply.started, 9);
    assert_eq!(reply.trigger, TriggerKind::Probability);
    assert!(reply.committed);
}
