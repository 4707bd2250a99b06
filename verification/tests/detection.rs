use cc_blackbox_core::candidate::{assemble_candidate, RequestSnapshotCandidate, RequestSnapshotInput};
use cc_blackbox_core::capture::PromptCaptureMode;
use cc_blackbox_core::detection::{detect_compaction, observe, RequestObservation};
use cc_blackbox_core::snapshot::CompactionDetectionStatus;

fn candidate(text: &str, messages: usize, tokens: usize, system: usize) -> RequestSnapshotCandidate {
    assemble_candidate(
        PromptCaptureMode::Safe,
        RequestSnapshotInput {
            model: "model-a".to_string(),
            working_dir: "/tmp/project".to_string(),
            message_count: messages,
            system_prompt_length: system,
            estimated_input_tokens: tokens,
            first_message_hash: "hash_a".to_string(),
            first_user_message: text.to_string(),
            user_prompt_excerpt: text.to_string(),
            compacted_state_hash: "hash_b".to_string(),
        },
        "hash_c".to_string(),
        text.to_string(),
        None,
    )
}

fn observed(messages: usize, tokens: usize, system: usize) -> RequestObservation {
    observe(&candidate("Fix auth", messages, tokens, system), &"session_a".to_string(), 0)
}

#[test]
fn a_candidate_without_summary_takes_the_prompt() {
    let taken = candidate("Fix auth", 1, 2, 3);
    assert_eq!(taken.compacted_objective_text, "Fix auth");
    assert_eq!(taken.detection_text, "Fix auth");
    assert_eq!(taken.system_prompt_hash, "hash_c");
    assert!(taken.compact_summary_text.is_none());
    assert!(!taken.explicit_compaction_marker);
}

#[test]
fn every_sign_is_told_in_order() {
    let mut latest = candidate("Session summary: handoff", 5, 600, 1_250);
    latest.first_message_hash = "hash_z".to_string();
    let found =
        detect_compaction(&latest, Some(&observed(10, 2_000, 1_000)), Some(80)).expect("found");
    assert_eq!(
        found.signals,
        [
            "explicit compact-summary marker",
            "message count dropped 10 -> 5",
            "estimated input tokens dropped 2000 -> 600",
            "system prompt length changed 1000 -> 1250",
            "first message hash changed in same working directory",
            "previous context fill was near compaction threshold",
        ]
    );
    assert_eq!(found.reason, found.signals.join("; "));
    assert_eq!(found.status, CompactionDetectionStatus::Detected);
    assert_eq!(found.confidence_percent, 95);
}

#[test]
fn confidence_grows_with_the_signs() {
    let before = observed(10, 20_000, 1_000);
    let one = detect_compaction(&candidate("Fix auth", 5, 20_000, 1_000), Some(&before), None)
        .expect("one sign");
    assert_eq!(one.status, CompactionDetectionStatus::Suspected);
    assert_eq!(one.confidence_percent, 45);

    let two = detect_compaction(&candidate("Fix auth", 5, 20_000, 1_000), Some(&before), Some(99))
        .expect("two signs");
    assert_eq!(two.status, CompactionDetectionStatus::Suspected);
    assert_eq!(two.confidence_percent, 55);

    let three = detect_compaction(&candidate("Fix auth", 5, 12_000, 1_000), Some(&before), Some(80))
        .expect("three signs");
    assert_eq!(three.status, CompactionDetectionStatus::Detected);
    assert_eq!(three.confidence_percent, 86);

    let marked = detect_compaction(&candidate("Compact summary: x", 1, 1, 1), None, None)
        .expect("marked");
    assert_eq!(marked.status, CompactionDetectionStatus::Detected);
    assert_eq!(marked.confidence_percent, 74);
}

#[test]
fn a_summary_with_a_drop_in_size_is_certain() {
    let found = detect_compaction(
        &candidate("Summary and next steps", 5, 20_000, 1_000),
        Some(&observed(10, 20_000, 1_000)),
        None,
    )
    .expect("found");
    assert_eq!(found.status, CompactionDetectionStatus::Detected);
    assert_eq!(found.confidence_percent, 80);
    assert_eq!(found.signals[0], "compact-summary-looking text block");
}

#[test]
fn text_and_fill_alone_are_not_enough() {
    let latest = candidate("Summary and next steps", 10, 20_000, 1_000);
    assert!(detect_compaction(&latest, None, Some(100)).is_none());
    assert!(detect_compaction(&latest, Some(&observed(10, 20_000, 1_000)), Some(100)).is_none());
}

#[test]
fn thresholds_are_met_exactly() {
    let shape = |messages, tokens, system, before: &RequestObservation| {
        detect_compaction(&candidate("Fix auth", messages, tokens, system), Some(before), None)
            .is_some()
    };
    assert!(shape(2, 9_000, 100, &observed(4, 9_000, 100)));
    assert!(!shape(3, 9_000, 100, &observed(4, 9_000, 100)));
    assert!(!shape(1, 9_000, 100, &observed(3, 9_000, 100)));
    assert!(shape(4, 1_200, 100, &observed(4, 2_000, 100)));
    assert!(!shape(4, 1_201, 100, &observed(4, 2_000, 100)));
    assert!(!shape(4, 1, 100, &observed(4, 1_999, 100)));
    assert!(shape(4, 9_000, 75, &observed(4, 9_000, 100)));
    assert!(!shape(4, 9_000, 76, &observed(4, 9_000, 100)));
    assert!(!shape(4, 9_000, 100, &observed(4, 9_000, 0)));
    let full = detect_compaction(
        &candidate("Fix auth", 2, 9_000, 100),
        Some(&observed(4, 9_000, 100)),
        Some(79),
    )
    .expect("found");
    assert_eq!(full.signals.len(), 1);
}

#[test]
fn a_growing_conversation_is_no_compaction() {
    for grown in 0..5usize {
        let latest = candidate("Fix auth", 10 + grown, 20_000 + grown, 1_000);
        assert!(detect_compaction(&latest, Some(&observed(10, 20_000, 1_000)), Some(90)).is_none());
    }
}

#[test]
fn counts_at_the_end_of_the_numbers_saturate() {
    let latest = candidate("Fix auth", usize::MAX, 20_000, 1_000);
    assert!(detect_compaction(&latest, Some(&observed(usize::MAX, 20_000, 1_000)), None).is_some());
}
