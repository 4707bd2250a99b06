use cc_blackbox_core::analyzer::parse_claude_drift_response;
use cc_blackbox_core::candidate::{
    build_candidate, RequestSnapshotCandidate, RequestSnapshotInput,
};
use cc_blackbox_core::capture::PromptCaptureMode;
use cc_blackbox_core::drift_score::{DriftDimensionScore, DriftScore, DriftScoreSource};
use cc_blackbox_core::hash::hash_text_hex;
use cc_blackbox_core::json::{JsonField, JsonValue};
use cc_blackbox_core::record::{FULL_EXCERPT_CHARS, SAFE_EXCERPT_CHARS};
use cc_blackbox_core::snapshot::CompactionDetectionStatus;
use cc_blackbox_core::store::SnapshotStore;

const MILLISECOND: u128 = 1_000_000;
const MINUTE: u128 = 60_000 * MILLISECOND;
const START: u128 = 1_000 * MINUTE;

fn text(value: &str) -> JsonValue {
    JsonValue::Text(value.to_string())
}

fn object(fields: Vec<(&str, JsonValue)>) -> JsonValue {
    let mut members: Vec<JsonField> = Vec::new();
    for (name, value) in fields {
        members.push(JsonField { name: name.to_string(), value });
    }
    JsonValue::Object(members)
}

fn request(content: JsonValue) -> JsonValue {
    object(vec![
        ("system", text("Primary working directory: /tmp/project")),
        (
            "messages",
            JsonValue::Array(vec![object(vec![("role", text("user")), ("content", content)])]),
        ),
    ])
}

fn input(model: &str, message_count: usize, first: &str) -> RequestSnapshotInput {
    RequestSnapshotInput {
        model: model.to_string(),
        working_dir: "/tmp/project".to_string(),
        message_count,
        system_prompt_length: 1000,
        estimated_input_tokens: 10_000,
        first_message_hash: hash_text_hex(first),
        first_user_message: first.to_string(),
        user_prompt_excerpt: first.to_string(),
        compacted_state_hash: hash_text_hex(first),
    }
}

fn normal_candidate(first: &str, message_count: usize, tokens: usize) -> RequestSnapshotCandidate {
    let mut candidate = build_candidate(
        &request(text(first)),
        PromptCaptureMode::Safe,
        input("model-a", message_count, first),
    );
    candidate.estimated_input_tokens = tokens;
    candidate
}

fn compact_candidate(
    summary: &str,
    message_count: usize,
    tokens: usize,
) -> RequestSnapshotCandidate {
    let mut candidate = build_candidate(
        &request(text(summary)),
        PromptCaptureMode::Safe,
        input("model-a", message_count, summary),
    );
    candidate.estimated_input_tokens = tokens;
    candidate
}

#[test]
fn full_mode_excerpts_are_labeled_and_include_raw_local_fields() {
    let mut store = SnapshotStore::new(5, MINUTE, "Helper".to_string());
    let first = normal_candidate("Fix login timeout without changing migrations", 8, 12_000);
    assert!(store
        .record_request(
            first,
            "session_a".to_string(),
            "req_1".to_string(),
            "2026-01-01T00:00:00Z".to_string(),
            None,
            START,
        )
        .is_none());

    let mut latest = compact_candidate(
        "Compaction summary: continue fixing login timeout. Next step run auth_timeout_test.",
        2,
        3_000,
    );
    latest.capture_mode = PromptCaptureMode::Full;
    let snapshot = store
        .record_request(
            latest,
            "session_a".to_string(),
            "req_2".to_string(),
            "2026-01-01T00:01:00Z".to_string(),
            Some(86),
            START,
        )
        .expect("snapshot");

    assert_eq!(snapshot.capture_mode, PromptCaptureMode::Full);
    assert!(snapshot.full_capture_warning.is_some());
    assert!(snapshot.excerpts.raw_compacted_objective.is_some());
}

#[test]
fn store_bounds_retention_cleanup_and_latest_pair() {
    let mut store = SnapshotStore::new(2, MILLISECOND, "Helper".to_string());
    let first = normal_candidate("Fix auth", 10, 10_000);
    assert!(store
        .record_request(
            first,
            "session_a".to_string(),
            "req_0".to_string(),
            "2026-01-01T00:00:00Z".to_string(),
            None,
            START,
        )
        .is_none());
    for idx in 1..=3 {
        let snapshot = compact_candidate(
            &format!("Compaction summary: Fix auth. Next step {idx}."),
            2,
            2_000,
        );
        store.record_request(
            snapshot,
            "session_a".to_string(),
            format!("req_{idx}"),
            format!("2026-01-01T00:0{idx}:00Z"),
            Some(86),
            START,
        );
    }
    let snapshots = store.list_session_snapshots("session_a");
    assert_eq!(snapshots.len(), 2);
    assert_eq!(snapshots[0].sequence, 2);
    let (previous, latest) = store.latest_pair("session_a").expect("pair");
    assert_eq!(previous.expect("previous").sequence, 2);
    assert_eq!(latest.sequence, 3);

    assert_eq!(store.cleanup_expired(START + 5 * MILLISECOND), 1);
    assert!(store.list_session_snapshots("session_a").is_empty());
}

#[test]
fn detection_distinguishes_suspected_and_detected_compaction() {
    let mut store = SnapshotStore::new(5, MINUTE, "Helper".to_string());
    store.record_request(
        normal_candidate("Fix auth timeout", 10, 20_000),
        "session_a".to_string(),
        "req_1".to_string(),
        "2026-01-01T00:00:00Z".to_string(),
        None,
        START,
    );

    let suspected = store
        .record_request(
            normal_candidate("Fix auth timeout", 4, 18_000),
            "session_a".to_string(),
            "req_s".to_string(),
            "2026-01-01T00:01:00Z".to_string(),
            Some(84),
            START,
        )
        .expect("suspected snapshot");
    assert_eq!(suspected.detection.status, CompactionDetectionStatus::Suspected);

    let detected = store
        .record_request(
            compact_candidate(
                "Compaction summary: continue fixing auth timeout. Next steps: run failing auth_timeout_test.",
                2,
                2_000,
            ),
            "session_a".to_string(),
            "req_d".to_string(),
            "2026-01-01T00:02:00Z".to_string(),
            Some(86),
            START,
        )
        .expect("detected snapshot");
    assert_eq!(detected.detection.status, CompactionDetectionStatus::Detected);
}

#[test]
fn deferred_tool_system_reminders_do_not_emit_compaction_snapshots() {
    let mut store = SnapshotStore::new(5, MINUTE, "Helper".to_string());
    let initial_prompt = "Lets investigate Playwright traces-only reporter";
    store.record_request(
        normal_candidate(initial_prompt, 79, 125_383),
        "session_a".to_string(),
        "req_1".to_string(),
        "2026-01-01T00:00:00Z".to_string(),
        None,
        START,
    );

    let mut candidate = build_candidate(
        &request(JsonValue::Array(vec![
            object(vec![
                ("type", text("text")),
                (
                    "text",
                    text("<system-reminder>\nThe following deferred tools are now available via ToolSearch. Their schemas are NOT loaded. Use them for compaction snapshot debugging.\n</system-reminder>"),
                ),
            ]),
            object(vec![
                ("type", text("text")),
                (
                    "text",
                    text("Continue checking playwright-opentelemetry-reporter traces-only behavior."),
                ),
            ]),
        ])),
        PromptCaptureMode::Full,
        input("model-a", 81, initial_prompt),
    );
    candidate.estimated_input_tokens = 126_961;

    assert!(store
        .record_request(
            candidate,
            "session_a".to_string(),
            "req_2".to_string(),
            "2026-01-01T00:01:00Z".to_string(),
            Some(84),
            START,
        )
        .is_none());
}

#[test]
fn generated_compaction_summary_uses_response_summary_block() {
    let mut store = SnapshotStore::new(5, MINUTE, "Helper".to_string());
    store.record_request(
        normal_candidate("Fix Playwright traces-only reporter", 79, 125_383),
        "session_a".to_string(),
        "req_1".to_string(),
        "2026-01-01T00:00:00Z".to_string(),
        None,
        START,
    );

    let mut candidate = compact_candidate(
        "CRITICAL: Respond with TEXT ONLY. Your task is to create a detailed summary of the conversation so far. Optional Next Step.",
        1,
        126_000,
    );
    candidate.capture_mode = PromptCaptureMode::Full;
    let snapshot = store
        .record_generated_summary(
            candidate,
            "session_a".to_string(),
            "req_summary".to_string(),
            "2026-01-01T00:01:00Z".to_string(),
            "<analysis>private scratch</analysis>\n<summary>Continue fixing playwright-opentelemetry-reporter traces-only test.</summary>",
            START,
        )
        .expect("generated summary snapshot");

    let raw = snapshot
        .excerpts
        .raw_compacted_objective
        .as_ref()
        .expect("raw compacted objective");
    assert_eq!(
        raw.text,
        "Continue fixing playwright-opentelemetry-reporter traces-only test."
    );
    assert!(!raw.text.contains("private scratch"));
    assert_eq!(snapshot.detection.status, CompactionDetectionStatus::Detected);
    assert!(snapshot
        .detection
        .reason
        .contains("generated compacted conversation summary"));
}

#[test]
fn full_mode_generated_compaction_summary_raw_excerpt_is_not_preview_capped() {
    let mut store = SnapshotStore::new(5, MINUTE, "Helper".to_string());
    store.record_request(
        normal_candidate("Ship Playwright OpenTelemetry metrics rollout", 120, 130_965),
        "session_a".to_string(),
        "req_before".to_string(),
        "2026-01-01T00:00:00Z".to_string(),
        None,
        START,
    );

    let long_context =
        " producer docs, collector wiring, dashboard checks, and review notes".repeat(100);
    let tail_marker = "FINAL_OPTIONAL_NEXT_STEP_MARKER";
    let response = format!(
        "<analysis>private scratch</analysis>\n<summary>1. Primary Request and Intent: The user is shipping a three-PR OpenTelemetry metrics rollout for Playwright e2e tests.{long_context}\n9. Optional Next Step: {tail_marker}</summary>"
    );

    let mut candidate = compact_candidate(
        "CRITICAL: Respond with TEXT ONLY. Your task is to create a detailed summary of the conversation so far. Optional Next Step.",
        3,
        73_554,
    );
    candidate.capture_mode = PromptCaptureMode::Full;
    let snapshot = store
        .record_generated_summary(
            candidate,
            "session_a".to_string(),
            "req_summary".to_string(),
            "2026-01-01T00:01:00Z".to_string(),
            &response,
            START,
        )
        .expect("generated summary snapshot");

    let raw = snapshot
        .excerpts
        .raw_compacted_objective
        .as_ref()
        .expect("raw compacted objective");
    assert!(raw.rendered_chars > FULL_EXCERPT_CHARS);
    assert!(!raw.truncated);
    assert!(raw.text.contains(tail_marker));
    assert!(!raw.text.contains("private scratch"));

    let safe = snapshot
        .excerpts
        .compacted_objective
        .as_ref()
        .expect("safe compacted objective");
    assert!(safe.truncated);
    assert!(safe.rendered_chars <= SAFE_EXCERPT_CHARS);
}

#[test]
fn carried_forward_compact_summary_is_not_re_emitted_each_turn() {
    let mut store = SnapshotStore::new(5, MINUTE, "Helper".to_string());
    store.record_request(
        normal_candidate("Create Playwright OpenTelemetry metrics reporter", 3, 67_495),
        "session_a".to_string(),
        "req_before".to_string(),
        "2026-01-01T00:00:00Z".to_string(),
        None,
        START,
    );

    let carried_summary = "This session is being continued from a previous conversation that ran out of context. The summary below covers the earlier portion of the conversation. Summary: The user wants to add an OpenTelemetry metrics reporter to Playwright e2e tests.";
    let mut first_continuation = compact_candidate(carried_summary, 4, 64_957);
    first_continuation.first_message_hash = hash_text_hex(carried_summary);
    let first = store
        .record_request(
            first_continuation,
            "session_a".to_string(),
            "req_first_continuation".to_string(),
            "2026-01-01T00:01:00Z".to_string(),
            Some(82),
            START,
        )
        .expect("first carried summary should emit once");
    assert_eq!(first.sequence, 1);

    let mut later_continuation = compact_candidate(carried_summary, 6, 70_977);
    later_continuation.first_message_hash = hash_text_hex(carried_summary);
    assert!(store
        .record_request(
            later_continuation,
            "session_a".to_string(),
            "req_later_continuation".to_string(),
            "2026-01-01T00:02:00Z".to_string(),
            Some(35),
            START,
        )
        .is_none());
}

#[test]
fn deterministic_drift_scores_required_dimensions() {
    let mut store = SnapshotStore::new(5, MINUTE, "Helper".to_string());
    store.record_request(
        normal_candidate(
            "Fix login timeout, preserve migration constraint, keep failing test auth_timeout_test visible",
            10,
            20_000,
        ),
        "session_a".to_string(),
        "req_1".to_string(),
        "2026-01-01T00:00:00Z".to_string(),
        None,
        START,
    );
    let aligned = store
        .record_request(
            compact_candidate(
                "Compaction summary: continue to fix login timeout. Preserve migration constraint. Failing test auth_timeout_test remains next.",
                2,
                2_000,
            ),
            "session_a".to_string(),
            "req_2".to_string(),
            "2026-01-01T00:01:00Z".to_string(),
            Some(86),
            START,
        )
        .expect("aligned snapshot");
    let drift = aligned.drift.as_ref().expect("drift");
    assert!(drift.objective_alignment.score >= 55);
    assert!(drift.state_preservation.score >= 55);
    assert!(drift.scope_drift.score < 60);
    assert!(drift.actionability.score >= 55);
    assert!(drift.risk.score < 60);

    let drifted = store
        .record_request(
            compact_candidate(
                "Compaction summary: refactor the entire auth flow. Next create new service abstraction.",
                2,
                2_000,
            ),
            "session_a".to_string(),
            "req_3".to_string(),
            "2026-01-01T00:02:00Z".to_string(),
            Some(86),
            START,
        )
        .expect("drifted snapshot");
    let drift = drifted.drift.as_ref().expect("drift");
    assert!(drift.objective_alignment.score < 60);
    assert!(drift.scope_drift.score >= 40);
    assert!(drift
        .missing_facts
        .iter()
        .any(|fact| fact.contains("migration")));
    assert!(drift
        .missing_facts
        .iter()
        .any(|fact| fact.contains("constraint")));
    assert!(drift.changed_framing.is_some());
}

#[test]
fn deterministic_drift_does_not_punish_compression_alone() {
    let mut store = SnapshotStore::new(5, MINUTE, "Helper".to_string());
    store.record_request(
        normal_candidate("Implement snapshot API and watch rendering", 10, 20_000),
        "session_a".to_string(),
        "req_1".to_string(),
        "2026-01-01T00:00:00Z".to_string(),
        None,
        START,
    );
    let snapshot = store
        .record_request(
            compact_candidate(
                "Compaction summary: snapshot API and watch rendering remain the task. Next verify tests.",
                2,
                2_000,
            ),
            "session_a".to_string(),
            "req_2".to_string(),
            "2026-01-01T00:01:00Z".to_string(),
            Some(86),
            START,
        )
        .expect("snapshot");
    let drift = snapshot.drift.expect("drift");
    assert!(drift.objective_alignment.score >= 60);
    assert!(drift.risk.score < 50);
}

#[test]
fn watch_snapshot_json_omits_raw_fields_in_safe_mode() {
    let mut store = SnapshotStore::new(5, MINUTE, "Helper".to_string());
    store.record_request(
        normal_candidate("Fix auth", 8, 10_000),
        "session_a".to_string(),
        "req_1".to_string(),
        "2026-01-01T00:00:00Z".to_string(),
        None,
        START,
    );
    let snapshot = store
        .record_request(
            compact_candidate("Compaction summary: fix auth. Next run tests.", 2, 2_000),
            "session_a".to_string(),
            "req_2".to_string(),
            "2026-01-01T00:01:00Z".to_string(),
            Some(86),
            START,
        )
        .expect("snapshot");
    assert_eq!(snapshot.capture_mode.as_label(), "safe_redacted");
    assert!(snapshot.excerpts.raw_compacted_objective.is_none());
}

fn dimension(value: &serde_json::Value) -> Result<DriftDimensionScore, String> {
    let score = value["score"].as_u64().ok_or("missing field `score`")?;
    let label = value["label"].as_str().ok_or("missing field `label`")?;
    Ok(DriftDimensionScore {
        score: u8::try_from(score).map_err(|err| err.to_string())?,
        label: label.to_string(),
        evidence: strings(&value["evidence"]),
    })
}

fn strings(value: &serde_json::Value) -> Vec<String> {
    match value.as_array() {
        Some(items) => items
            .iter()
            .filter_map(|item| item.as_str())
            .map(|item| item.to_string())
            .collect(),
        None => Vec::new(),
    }
}

fn read_score(json: &str) -> Result<DriftScore, String> {
    let value: serde_json::Value = serde_json::from_str(json).map_err(|err| err.to_string())?;
    let source = match value["source"].as_str() {
        Some("deterministic") => DriftScoreSource::Deterministic,
        Some("claude_assisted_redacted") => DriftScoreSource::ClaudeAssistedRedacted,
        Some("claude_assisted_full") => DriftScoreSource::ClaudeAssistedFull,
        _ => return Err("unknown source".to_string()),
    };
    Ok(DriftScore {
        source,
        objective_alignment: dimension(&value["objective_alignment"])?,
        state_preservation: dimension(&value["state_preservation"])?,
        scope_drift: dimension(&value["scope_drift"])?,
        actionability: dimension(&value["actionability"])?,
        risk: dimension(&value["risk"])?,
        missing_facts: strings(&value["missing_facts"]),
        changed_framing: value["changed_framing"].as_str().map(|text| text.to_string()),
        caveats: strings(&value["caveats"]),
    })
}

#[test]
fn claude_assisted_scoring_success_and_failure_are_structured() {
    let response = r#"{
      "source": "claude_assisted_redacted",
      "objective_alignment": {"score": 80, "label": "high", "evidence": ["kept objective"]},
      "state_preservation": {"score": 70, "label": "medium", "evidence": []},
      "scope_drift": {"score": 20, "label": "low", "evidence": []},
      "actionability": {"score": 90, "label": "high", "evidence": []},
      "risk": {"score": 20, "label": "low", "evidence": []},
      "missing_facts": [],
      "changed_framing": null,
      "caveats": ["redacted evidence"]
    }"#;
    let parsed = parse_claude_drift_response(
        "Helper",
        response,
        DriftScoreSource::ClaudeAssistedRedacted,
        read_score,
    )
    .expect("parse");
    assert_eq!(parsed.source, DriftScoreSource::ClaudeAssistedRedacted);
    assert_eq!(parsed.objective_alignment.score, 80);

    let bad = parse_claude_drift_response(
        "Helper",
        "not json",
        DriftScoreSource::ClaudeAssistedRedacted,
        read_score,
    );
    assert!(bad.is_err());
}

#[test]
fn the_system_prompt_alone_decides_its_label() {
    let label = |system: Option<JsonValue>, content: &str| {
        let mut fields = vec![(
            "messages",
            JsonValue::Array(vec![object(vec![("content", text(content))])]),
        )];
        if let Some(value) = system {
            fields.push(("system", value));
        }
        build_candidate(&object(fields), PromptCaptureMode::Safe, input("model-a", 1, "x"))
            .system_prompt_hash
    };
    let items = JsonValue::Array(vec![
        object(vec![("text", text("a"))]),
        JsonValue::Scalar,
        object(vec![("text", text("b"))]),
    ]);
    assert_eq!(label(Some(text("a\nb")), "one"), hash_text_hex("a\nb"));
    assert_eq!(label(Some(items), "two"), hash_text_hex("a\nb"));
    assert_eq!(label(None, "one"), hash_text_hex(""));
}
