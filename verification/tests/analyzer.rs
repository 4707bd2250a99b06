use cc_blackbox_core::analyzer::{
    analyzer_arguments, analyzer_variables, build_claude_drift_prompt, collect_evidence,
    complete_score, conclude_run, extract_json_object, parse_claude_drift_response, plan_analysis,
    read_answer, write_prompt, AnalysisPlan, AnalyzerEnd, ClaudeDriftAnalyzerMode, DriftEvidence,
};
use cc_blackbox_core::candidate::{assemble_candidate, RequestSnapshotInput};
use cc_blackbox_core::capture::PromptCaptureMode;
use cc_blackbox_core::drift::score_drift_between;
use cc_blackbox_core::drift_score::{DriftScore, DriftScoreSource};
use cc_blackbox_core::snapshot::CompactionSnapshot;
use cc_blackbox_core::store::SnapshotStore;

fn mode(
    analyzer: Option<&str>,
    response: Option<&str>,
    command: Option<&str>,
    context: Option<&str>,
) -> ClaudeDriftAnalyzerMode {
    ClaudeDriftAnalyzerMode::from_settings("Helper", analyzer, response, command, context)
}

fn run(command: &str, source: DriftScoreSource) -> ClaudeDriftAnalyzerMode {
    ClaudeDriftAnalyzerMode::Claude { command: command.to_string(), source, timeout_secs: 120 }
}

fn full_snapshot() -> CompactionSnapshot {
    let candidate = assemble_candidate(
        PromptCaptureMode::Full,
        RequestSnapshotInput {
            model: "model-a".to_string(),
            working_dir: "/tmp/project".to_string(),
            message_count: 2,
            system_prompt_length: 10,
            estimated_input_tokens: 100,
            first_message_hash: "hash_a".to_string(),
            first_user_message: "Fix auth".to_string(),
            user_prompt_excerpt: "Fix auth".to_string(),
            compacted_state_hash: "hash_b".to_string(),
        },
        "hash_c".to_string(),
        String::new(),
        None,
    );
    let mut store = SnapshotStore::new(5, 1, "Helper".to_string());
    store.record_summary(
        candidate,
        "session_a".to_string(),
        "req_1".to_string(),
        "2026-01-01T00:00:00Z".to_string(),
        "Continue with auth".to_string(),
        0,
    )
}

fn given_score(source: DriftScoreSource, caveats: Vec<String>) -> DriftScore {
    let mut score = score_drift_between("Helper", "alpha", "", "alpha");
    score.source = source;
    score.caveats = caveats;
    score
}

#[test]
fn settings_choose_the_analyzer() {
    for off in ["", " ", "0", "false", "NO", "off", "disabled", "anything else"] {
        assert_eq!(mode(Some(off), None, None, None), ClaudeDriftAnalyzerMode::Disabled);
    }
    assert_eq!(mode(None, None, None, None), ClaudeDriftAnalyzerMode::Disabled);
    assert_eq!(
        mode(Some(" Mock "), Some("answer"), None, None),
        ClaudeDriftAnalyzerMode::Mock { response: "answer".to_string() }
    );
    assert_eq!(
        mode(Some("mock"), None, None, None),
        ClaudeDriftAnalyzerMode::Mock { response: String::new() }
    );
    for on in ["1", "TRUE", "helper"] {
        assert_eq!(
            mode(Some(on), None, None, None),
            run("helper", DriftScoreSource::ClaudeAssistedRedacted)
        );
    }
    assert_eq!(
        mode(Some("1"), None, Some("/opt/x"), Some(" FULL ")),
        run("/opt/x", DriftScoreSource::ClaudeAssistedFull)
    );
    assert_eq!(
        mode(Some("1"), None, None, Some("fuller")),
        run("helper", DriftScoreSource::ClaudeAssistedRedacted)
    );
    assert_eq!(
        ClaudeDriftAnalyzerMode::from_settings("", None, None, None, None),
        ClaudeDriftAnalyzerMode::Disabled
    );
}

#[test]
fn plans_follow_the_choice() {
    assert_eq!(
        plan_analysis(ClaudeDriftAnalyzerMode::Disabled),
        AnalysisPlan::Refuse { reason: "drift analyzer disabled".to_string() }
    );
    assert_eq!(
        plan_analysis(ClaudeDriftAnalyzerMode::Mock { response: "a".to_string() }),
        AnalysisPlan::Read {
            response: "a".to_string(),
            source: DriftScoreSource::ClaudeAssistedRedacted,
        }
    );
    assert_eq!(
        plan_analysis(run("x", DriftScoreSource::ClaudeAssistedFull)),
        AnalysisPlan::Run {
            command: "x".to_string(),
            source: DriftScoreSource::ClaudeAssistedFull,
            timeout_secs: 120,
        }
    );
    assert_eq!(
        analyzer_arguments(),
        [
            "-p", "--output-format", "text", "--no-session-persistence", "--max-budget-usd", "0.25",
            "--tools", "",
        ]
    );
}

#[test]
fn redacted_evidence_holds_no_raw_text() {
    let snapshot = full_snapshot();
    assert!(snapshot.excerpts.raw_compacted_objective.is_some());
    let redacted = collect_evidence(&snapshot, DriftScoreSource::ClaudeAssistedRedacted);
    assert!(redacted.excerpts.raw_initial_objective.is_none());
    assert!(redacted.excerpts.raw_compacted_objective.is_none());
    assert!(redacted.excerpts.raw_compact_summary.is_none());
    assert_eq!(redacted.excerpts.compacted_objective, snapshot.excerpts.compacted_objective);
    let full = collect_evidence(&snapshot, DriftScoreSource::ClaudeAssistedFull);
    assert_eq!(full.excerpts, snapshot.excerpts);
    assert_eq!(full.session_id, "session_a");
    assert_eq!(full.sequence, 1);
}

#[test]
fn the_prompt_names_its_source_and_holds_the_evidence() {
    let prompt = write_prompt("{\n  \"a\": 1\n}", DriftScoreSource::ClaudeAssistedFull);
    assert!(prompt.starts_with("You are cc-blackbox's compaction drift analyst.\nUse only"));
    assert!(prompt.contains("Required JSON shape:\n{\"source\":\"claude_assisted_full\",\"objective"));
    assert!(prompt.ends_with("Evidence JSON:\n```json\n{ \"a\": 1 }\n```"));

    let long = write_prompt(
        &"x".repeat(30_000),
        DriftScoreSource::ClaudeAssistedRedacted,
    );
    assert!(long.ends_with("xxx...\n```"));
    assert_eq!(long.matches('x').count() - prompt.matches('x').count(), 23_997);
}

fn shown_texts(evidence: &DriftEvidence) -> String {
    format!("{} {:?}", evidence.session_id, evidence.excerpts)
}

#[test]
fn raw_text_reaches_the_prompt_of_the_full_evidence_only() {
    let one = full_snapshot();
    let mut two = one.clone();
    two.excerpts.raw_initial_objective = None;
    two.excerpts.raw_compacted_objective = None;
    two.excerpts.raw_compact_summary = None;
    let redacted = DriftScoreSource::ClaudeAssistedRedacted;
    assert_eq!(
        build_claude_drift_prompt(&one, redacted, shown_texts),
        build_claude_drift_prompt(&two, redacted, shown_texts)
    );
    assert_eq!(
        build_claude_drift_prompt(&two, redacted, shown_texts),
        write_prompt(&shown_texts(&collect_evidence(&one, redacted)), redacted)
    );
    let full = DriftScoreSource::ClaudeAssistedFull;
    assert_ne!(
        build_claude_drift_prompt(&one, full, shown_texts),
        build_claude_drift_prompt(&two, full, shown_texts)
    );
}

#[test]
fn the_environment_of_a_run_loses_the_proxy() {
    assert_eq!(
        analyzer_variables(),
        [
            ("ANTHROPIC_BASE_URL".to_string(), None),
            ("CC_BLACKBOX_DRIFT_ANALYSIS".to_string(), Some("1".to_string())),
        ]
    );
}

#[test]
fn text_around_the_object_does_not_matter() {
    let fallback = DriftScoreSource::ClaudeAssistedFull;
    let read = |json: &str| {
        let mut score = given_score(DriftScoreSource::Deterministic, Vec::new());
        score.missing_facts = vec![json.to_string()];
        Ok(score)
    };
    let bare = parse_claude_drift_response("Helper", "{\"a\": {}}", fallback, read);
    assert!(bare.is_ok());
    assert_eq!(
        parse_claude_drift_response("Helper", "see } {\"a\": {}} and { more", fallback, read),
        bare
    );
}

#[test]
fn every_end_of_a_run_is_told() {
    let told = |end| conclude_run("Helper", end).expect_err("error");
    assert_eq!(
        told(AnalyzerEnd::NotStarted { error: "gone".to_string() }),
        "failed to start helper drift analyzer: gone"
    );
    assert_eq!(told(AnalyzerEnd::NoInput), "failed to open helper drift analyzer stdin");
    assert_eq!(
        told(AnalyzerEnd::NotWritten { error: "pipe".to_string() }),
        "failed to write drift prompt: pipe"
    );
    assert_eq!(told(AnalyzerEnd::TimedOut), "drift analysis timed out");
    assert_eq!(
        told(AnalyzerEnd::NotAwaited { error: "lost".to_string() }),
        "failed to wait for drift analyzer: lost"
    );
}

#[test]
fn what_an_analyzer_printed_is_its_answer() {
    let exited = |success, stdout: &[u8], stderr: &[u8]| {
        conclude_run(
            "Helper",
            AnalyzerEnd::Exited {
                success,
                status: "exit status: 9".to_string(),
                stdout: stdout.to_vec(),
                stderr: stderr.to_vec(),
            },
        )
    };
    assert_eq!(exited(true, b" {} \n", b"noise"), Ok("{}".to_string()));
    assert_eq!(exited(true, b"a\xffb", b""), Ok("a\u{fffd}b".to_string()));
    assert_eq!(
        exited(true, b" \n", b""),
        Err("helper drift analyzer returned empty output".to_string())
    );
    assert_eq!(
        exited(false, b"{}", b" "),
        Err("helper drift analyzer exited with exit status: 9".to_string())
    );
    assert_eq!(
        exited(false, b"{}", b" no \n"),
        Err("helper drift analyzer exited with exit status: 9: no".to_string())
    );
    assert_eq!(read_answer("Helper", true, "", " x ", ""), Ok("x".to_string()));
}

#[test]
fn objects_stand_between_the_outer_braces() {
    assert_eq!(extract_json_object("say {\"a\": {}} now"), Some("{\"a\": {}}".to_string()));
    assert_eq!(extract_json_object("{} and {}"), Some("{} and {}".to_string()));
    assert_eq!(extract_json_object("} {"), None);
    assert_eq!(extract_json_object("{"), None);
    assert_eq!(extract_json_object("}"), None);
    assert_eq!(extract_json_object(""), None);
}

#[test]
fn answers_get_a_source_and_a_caveat() {
    let fallback = DriftScoreSource::ClaudeAssistedRedacted;
    let named = complete_score(
        "Helper",
        Ok(given_score(DriftScoreSource::ClaudeAssistedFull, vec!["mine".to_string()])),
        fallback,
    )
    .expect("score");
    assert_eq!(named.source, DriftScoreSource::ClaudeAssistedFull);
    assert_eq!(named.caveats, ["mine"]);

    let bare =
        complete_score("Helper", Ok(given_score(DriftScoreSource::Deterministic, Vec::new())), fallback)
            .expect("score");
    assert_eq!(bare.source, fallback);
    assert_eq!(bare.caveats, ["Helper-assisted drift scoring is advisory."]);
    let again = complete_score("Helper", Ok(bare.clone()), fallback).expect("score");
    assert_eq!(again, bare);
}

#[test]
fn answers_that_cannot_be_read_are_refused() {
    let fallback = DriftScoreSource::ClaudeAssistedRedacted;
    let missing = parse_claude_drift_response("Helper", "no braces", fallback, |_json: &str| {
        Err("not asked".to_string())
    });
    assert_eq!(missing, Err("missing JSON object".to_string()));
    let invalid = parse_claude_drift_response("Helper", "x {bad} y", fallback, |json: &str| {
        Err(format!("cannot read {json}"))
    });
    assert_eq!(invalid, Err("invalid drift JSON: cannot read {bad}".to_string()));
}
