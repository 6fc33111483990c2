use avalon_sdk::client::{capabilities_from_wire, require};
use avalon_sdk::error::SdkError;
use avalon_sdk::submission::{
    classify_send_result, drain_order, is_attempt_due, next_attempt_number, settle, DrainOutcome, JournalUpdate,
    RetryBook, StatusTransition, SubmitError, SubmitOutcome, CONVERSATION_MESSAGE_KIND,
};
use avalon_sdk::types::permissions::Capability;

/// A sent message, as far as classification cares.
struct SentMessage;

#[test]
fn a_401_is_classified_as_authentication_required_not_a_terminal_rejection() {
    let result = classify_send_result::<SentMessage>(Err(SdkError::Unauthorized));
    assert!(matches!(result, Err(SubmitError::AuthenticationRequired)));
}

#[test]
fn a_403_not_a_participant_stays_a_terminal_rejection() {
    let result = classify_send_result::<SentMessage>(Err(SdkError::NotConversationParticipant));
    assert!(matches!(result, Ok(SubmitOutcome::Rejected { .. })));
}

#[test]
fn a_missing_capability_is_a_terminal_rejection_not_a_retry() {
    let result = classify_send_result::<SentMessage>(Err(SdkError::CapabilityNotGranted(
        "messages.send".to_string(),
    )));
    assert!(matches!(result, Ok(SubmitOutcome::Rejected { .. })));
}

#[test]
fn a_404_on_this_endpoint_is_treated_as_already_applied() {
    let result = classify_send_result::<SentMessage>(Err(SdkError::NotFound("message".to_string())));
    assert!(matches!(result, Ok(SubmitOutcome::Applied)));
}

#[test]
fn a_429_and_5xx_stay_retryable() {
    let result = classify_send_result::<SentMessage>(Err(SdkError::Unavailable {
        retried: 0,
        detail: "rate limited or server error".to_string(),
    }));
    assert!(matches!(result, Err(SubmitError::Retryable(_))));
}

#[test]
fn any_other_4xx_stays_a_terminal_rejection() {
    let result = classify_send_result::<SentMessage>(Err(SdkError::Rejected {
        reason: "bad request".to_string(),
    }));
    assert!(matches!(result, Ok(SubmitOutcome::Rejected { .. })));
}

#[test]
fn a_success_is_applied() {
    let result = classify_send_result(Ok::<SentMessage, SdkError>(SentMessage));
    assert!(matches!(result, Ok(SubmitOutcome::Applied)));
}

#[test]
fn classification_reasons_carry_the_detail() {
    assert_eq!(
        classify_send_result::<SentMessage>(Err(SdkError::CapabilityNotGranted("messages.send".to_string()))),
        Ok(SubmitOutcome::Rejected { reason: "capability not granted: messages.send".to_string() })
    );
    assert_eq!(
        classify_send_result::<SentMessage>(Err(SdkError::Unavailable { retried: 1, detail: "down".to_string() })),
        Err(SubmitError::Retryable("avalon-server unavailable: down".to_string()))
    );
    assert_eq!(
        classify_send_result::<SentMessage>(Err(SdkError::Conflict("dup".to_string()))),
        Ok(SubmitOutcome::Rejected { reason: "conflict: dup".to_string() })
    );
}

#[test]
fn groups_are_submitted_in_per_kind_recorded_at_order() {
    let kinds = vec![
        CONVERSATION_MESSAGE_KIND.to_string(),
        "achievement.earned".to_string(),
        CONVERSATION_MESSAGE_KIND.to_string(),
    ];
    let order = drain_order(&kinds, &vec![10, 20, 30]);
    assert_eq!(order, vec![1, 0, 2]);
    let tied = drain_order(&vec!["b".to_string(), "a".to_string(), "b".to_string(), "a".to_string()], &vec![5, 9, 5, 1]);
    assert_eq!(tied, vec![3, 1, 0, 2]);
}

#[test]
fn a_retryable_failure_backs_off_and_counts_attempts() {
    let mut book = RetryBook::new();
    let id = 77u128;
    assert!(is_attempt_due(&book, id, 0));
    assert_eq!(next_attempt_number(&book, id), 1);
    let settled = settle(&mut book, id, "chat.message", Err(SubmitError::Retryable("down".to_string())), 1_000, 500);
    assert_eq!(settled.outcome, DrainOutcome::Deferred);
    assert_eq!(settled.journal, JournalUpdate::MarkFailed("down".to_string()));
    assert_eq!(settled.transition, None);
    assert!(!is_attempt_due(&book, id, 1_499));
    assert!(is_attempt_due(&book, id, 1_500));
    assert_eq!(next_attempt_number(&book, id), 2);
    let settled = settle(&mut book, id, "chat.message", Ok(SubmitOutcome::Applied), 2_000, 0);
    assert_eq!(settled.outcome, DrainOutcome::Applied);
    assert_eq!(settled.journal, JournalUpdate::MarkSubmitted);
    assert_eq!(
        settled.transition,
        Some(StatusTransition::Submitted { id, kind: "chat.message".to_string() })
    );
    assert_eq!(next_attempt_number(&book, id), 1);
}

#[test]
fn an_unsupported_kind_is_left_pending_and_is_not_treated_as_a_failure() {
    let mut book = RetryBook::new();
    let settled = settle(&mut book, 5, "guild.join_request", Err(SubmitError::UnsupportedKind), 0, 0);
    assert_eq!(settled.outcome, DrainOutcome::Deferred);
    assert_eq!(settled.journal, JournalUpdate::Unchanged);
    assert_eq!(next_attempt_number(&book, 5), 1);
}

#[test]
fn a_rejected_token_keeps_the_entry_without_backoff() {
    let mut book = RetryBook::new();
    let settled = settle(&mut book, 5, "chat.message", Err(SubmitError::AuthenticationRequired), 0, 0);
    assert_eq!(settled.outcome, DrainOutcome::AuthenticationRequired);
    assert_eq!(settled.journal, JournalUpdate::MarkFailed("session token rejected (401)".to_string()));
    assert!(is_attempt_due(&book, 5, 0));
}

#[test]
fn a_rejection_is_terminal_and_announced() {
    let mut book = RetryBook::new();
    settle(&mut book, 9, "chat.message", Err(SubmitError::Retryable("x".to_string())), 0, 10);
    let settled = settle(&mut book, 9, "chat.message", Ok(SubmitOutcome::Rejected { reason: "gone".to_string() }), 20, 0);
    assert_eq!(settled.outcome, DrainOutcome::Rejected { reason: "gone".to_string() });
    assert_eq!(settled.journal, JournalUpdate::MarkRejected("gone".to_string()));
    assert_eq!(
        settled.transition,
        Some(StatusTransition::Rejected { id: 9, kind: "chat.message".to_string(), reason: "gone".to_string() })
    );
    assert!(is_attempt_due(&book, 9, 0));
}

#[test]
fn gated_calls_need_the_capability() {
    let granted = vec![Capability::FriendsRead, Capability::Other("x.future".to_string())];
    assert_eq!(require(&granted, &Capability::FriendsRead), Ok(()));
    assert_eq!(require(&granted, &Capability::Other("x.future".to_string())), Ok(()));
    assert_eq!(
        require(&granted, &Capability::PresenceRead),
        Err(SdkError::CapabilityNotGranted("presence.read".to_string()))
    );
}

#[test]
fn granted_capabilities_are_parsed_from_their_wire_strings() {
    let parsed = capabilities_from_wire(&vec!["friends.read".to_string(), "brand.new".to_string()]);
    assert_eq!(parsed, vec![Capability::FriendsRead, Capability::Other("brand.new".to_string())]);
}

#[test]
fn a_terminally_settled_entry_is_not_drained_again() {
    let mut book = RetryBook::new();
    let mut pending: Vec<(u128, String, i128)> =
        vec![(1, "chat.message".to_string(), 10), (2, "chat.message".to_string(), 5), (3, "a.kind".to_string(), 7)];
    let settled = settle(&mut book, 2, "chat.message", Ok(SubmitOutcome::Rejected { reason: "gone".to_string() }), 0, 0);
    assert!(matches!(settled.transition, Some(StatusTransition::Rejected { id: 2, .. })));
    assert!(matches!(settled.journal, JournalUpdate::MarkRejected(_)));
    assert!(book.get(2).is_none());
    pending.retain(|e| e.0 != 2);
    let kinds: Vec<String> = pending.iter().map(|e| e.1.clone()).collect();
    let times: Vec<i128> = pending.iter().map(|e| e.2).collect();
    let ids: Vec<u128> = drain_order(&kinds, &times).into_iter().map(|k| pending[k].0).collect();
    assert_eq!(ids, vec![3, 1]);
}
