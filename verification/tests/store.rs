use cc_blackbox_core::candidate::{assemble_candidate, RequestSnapshotCandidate, RequestSnapshotInput};
use cc_blackbox_core::capture::PromptCaptureMode;
use cc_blackbox_core::drift::score_drift_between;
use cc_blackbox_core::snapshot::{CompactionSnapshot, SnapshotExcerpts};
use cc_blackbox_core::store::SnapshotStore;

const SECOND: u128 = 1_000_000_000;

fn candidate(mode: PromptCaptureMode, dir: &str, first: &str, text: &str) -> RequestSnapshotCandidate {
    assemble_candidate(
        mode,
        RequestSnapshotInput {
            model: "model-a".to_string(),
            working_dir: dir.to_string(),
            message_count: 10,
            system_prompt_length: 100,
            estimated_input_tokens: 5_000,
            first_message_hash: first.to_string(),
            first_user_message: text.to_string(),
            user_prompt_excerpt: text.to_string(),
            compacted_state_hash: "hash_b".to_string(),
        },
        "hash_c".to_string(),
        text.to_string(),
        None,
    )
}

fn store(limit: usize, ttl: u128) -> SnapshotStore {
    SnapshotStore::new(limit, ttl, "Helper".to_string())
}

fn marked(store: &mut SnapshotStore, session: &str, now: u128) -> Option<CompactionSnapshot> {
    store.record_request(
        candidate(PromptCaptureMode::Safe, "/tmp/a", "hash_a", "Session summary: auth"),
        session.to_string(),
        "req".to_string(),
        "2026-01-01T00:00:00Z".to_string(),
        None,
        now,
    )
}

fn plain(store: &mut SnapshotStore, session: &str, dir: &str, first: &str) -> Option<CompactionSnapshot> {
    store.record_request(
        candidate(PromptCaptureMode::Safe, dir, first, "Fix auth"),
        session.to_string(),
        "req".to_string(),
        "2026-01-01T00:00:00Z".to_string(),
        None,
        0,
    )
}

fn numbers(store: &SnapshotStore, session: &str) -> Vec<u64> {
    store.list_session_snapshots(session).iter().map(|snapshot| snapshot.sequence).collect()
}

#[test]
fn the_latest_snapshots_of_each_session_are_kept() {
    let mut kept = store(3, SECOND);
    for _ in 0..5 {
        marked(&mut kept, "one", 0);
    }
    marked(&mut kept, "two", 0);
    assert_eq!(numbers(&kept, "one"), [3, 4, 5]);
    assert_eq!(numbers(&kept, "two"), [1]);
    assert!(kept.list_session_snapshots("none").is_empty());
}

#[test]
fn numbers_have_no_gap() {
    for limit in 1..=4usize {
        let mut kept = store(limit, SECOND);
        for taken in 1..=9u64 {
            plain(&mut kept, "one", "/tmp/a", "hash_a");
            assert_eq!(marked(&mut kept, "one", 0).expect("snapshot").sequence, taken);
            let first = taken.saturating_sub(limit as u64) + 1;
            assert_eq!(numbers(&kept, "one"), (first..=taken).collect::<Vec<u64>>());
        }
    }
}

#[test]
fn a_limit_of_zero_keeps_one() {
    let mut kept = store(0, SECOND);
    marked(&mut kept, "one", 0);
    marked(&mut kept, "one", 0);
    assert_eq!(numbers(&kept, "one"), [2]);
}

#[test]
fn settings_give_the_limit_and_the_time() {
    let count = |limit: Option<&str>| {
        let mut kept = SnapshotStore::from_settings(limit, None, "Helper".to_string());
        for _ in 0..9 {
            marked(&mut kept, "one", 0);
        }
        numbers(&kept, "one").len()
    };
    assert_eq!(count(None), 5);
    assert_eq!(count(Some("7")), 7);
    assert_eq!(count(Some("0")), 1);
    assert_eq!(count(Some("many")), 5);

    let expired = |secs: Option<&str>, later: u128| {
        let mut kept = SnapshotStore::from_settings(None, secs, "Helper".to_string());
        marked(&mut kept, "one", 0);
        kept.cleanup_expired(later)
    };
    assert_eq!(expired(None, 3_600 * SECOND), 0);
    assert_eq!(expired(None, 3_600 * SECOND + 1), 1);
    assert_eq!(expired(Some("2"), 2 * SECOND), 0);
    assert_eq!(expired(Some("2"), 2 * SECOND + 1), 1);
    assert_eq!(expired(Some("-2"), 3_600 * SECOND), 0);
    assert_eq!(expired(Some("18446744073709551615"), u128::MAX), 1);
}

#[test]
fn the_latest_pair_is_the_end_of_the_list() {
    let mut kept = store(3, SECOND);
    assert!(kept.latest_pair("one").is_none());
    plain(&mut kept, "one", "/tmp/a", "hash_a");
    assert!(kept.latest_pair("one").is_none());
    marked(&mut kept, "one", 0);
    let (none, only) = kept.latest_pair("one").expect("pair");
    assert!(none.is_none());
    assert_eq!(only.sequence, 1);
    marked(&mut kept, "one", 0);
    let (previous, latest) = kept.latest_pair("one").expect("pair");
    assert_eq!(previous.expect("previous").sequence, 1);
    assert_eq!(latest.sequence, 2);
}

#[test]
fn a_replaced_drift_is_read_back() {
    let mut kept = store(3, SECOND);
    marked(&mut kept, "one", 0);
    marked(&mut kept, "one", 0);
    let before = kept.list_session_snapshots("one");
    let first = score_drift_between("Helper", "alpha", "", "bravo");
    let drift = score_drift_between("Helper", "alpha", "", "alpha");
    assert!(kept.update_drift("one", 9, drift.clone()).is_none());
    assert!(kept.update_drift("two", 1, drift.clone()).is_none());
    assert_eq!(kept.list_session_snapshots("one"), before);

    kept.update_drift("one", 1, first);
    let updated = kept.update_drift("one", 1, drift.clone()).expect("snapshot");
    assert_eq!(updated.drift.as_ref(), Some(&drift));
    let after = kept.list_session_snapshots("one");
    assert_eq!(after[0], updated);
    assert_eq!(after[1], before[1]);
    assert_eq!(after[0].excerpts, before[0].excerpts);
}

#[test]
fn the_session_of_a_directory_is_remembered() {
    let mut kept = store(3, SECOND);
    assert_eq!(kept.latest_session_id_for_working_dir("/tmp/a"), None);
    plain(&mut kept, "one", "/tmp/a", "hash_a");
    plain(&mut kept, "two", "/tmp/b", "hash_a");
    plain(&mut kept, "three", "/tmp/a", "hash_a");
    assert_eq!(kept.latest_session_id_for_working_dir("/tmp/a").as_deref(), Some("three"));
    assert_eq!(kept.latest_session_id_for_working_dir("/tmp/b").as_deref(), Some("two"));
}

#[test]
fn a_new_session_is_held_against_its_directory_where_it_begins_otherwise() {
    let mut kept = store(3, SECOND);
    plain(&mut kept, "one", "/tmp/a", "hash_a");
    assert!(plain(&mut kept, "two", "/tmp/a", "hash_a").is_none());
    let other = plain(&mut kept, "three", "/tmp/a", "hash_z").expect("snapshot");
    assert_eq!(other.request.previous_first_message_hash.as_deref(), Some("hash_a"));
    assert_eq!(other.request.previous_message_count, Some(10));
    assert!(plain(&mut kept, "four", "/tmp/c", "hash_y").is_none());
}

#[test]
fn a_repeated_request_gives_no_snapshot() {
    let mut kept = store(3, SECOND);
    for _ in 0..4 {
        assert!(plain(&mut kept, "one", "/tmp/a", "hash_a").is_none());
    }
    assert!(kept.list_session_snapshots("one").is_empty());
}

#[test]
fn only_idle_sessions_expire() {
    let mut kept = store(3, 10);
    marked(&mut kept, "old", 100);
    marked(&mut kept, "edge", 105);
    marked(&mut kept, "new", 110);
    assert_eq!(kept.cleanup_expired(9), 0);
    assert_eq!(kept.cleanup_expired(110), 0);
    assert_eq!(kept.cleanup_expired(115), 1);
    assert_eq!(kept.cleanup_expired(115), 0);
    assert!(kept.list_session_snapshots("old").is_empty());
    assert_eq!(numbers(&kept, "edge"), [1]);
    assert_eq!(kept.cleanup_expired(121), 2);
    assert_eq!(kept.latest_session_id_for_working_dir("/tmp/a"), None);
}

#[test]
fn a_summary_is_kept_whole_in_the_full_mode_only() {
    for mode in [PromptCaptureMode::Safe, PromptCaptureMode::Full] {
        let mut kept = store(3, SECOND);
        let summary = format!("word {}", "and ".repeat(3_000));
        let taken = kept.record_summary(
            candidate(mode, "/tmp/a", "hash_a", "Fix auth"),
            "one".to_string(),
            "req".to_string(),
            "2026-01-01T00:00:00Z".to_string(),
            summary.clone(),
            7,
        );
        assert_eq!(taken.capture_mode, mode);
        assert!(taken.local_only);
        assert_eq!(taken.full_capture_warning.is_some(), mode == PromptCaptureMode::Full);
        assert_eq!(
            taken.detection.reason,
            "Helper Code generated compacted conversation summary"
        );
        assert_eq!(taken.detection.signals, ["compaction summary response"]);
        assert_eq!(taken.detection.confidence_percent, 95);
        match mode {
            PromptCaptureMode::Full => {
                let raw = taken.excerpts.raw_compacted_objective.as_ref().expect("raw");
                assert_eq!(raw.text, summary.trim());
                assert!(!raw.truncated);
                assert_eq!(taken.excerpts.raw_compact_summary.as_ref(), Some(raw));
            }
            PromptCaptureMode::Safe => {
                assert!(taken.excerpts.raw_initial_objective.is_none());
                assert!(taken.excerpts.raw_compacted_objective.is_none());
                assert!(taken.excerpts.raw_compact_summary.is_none());
            }
        }
        assert_eq!(kept.list_session_snapshots("one"), [taken]);
        assert_eq!(kept.latest_session_id_for_working_dir("/tmp/a"), None);
    }
}

#[test]
fn a_response_without_text_is_no_summary() {
    let mut kept = store(3, SECOND);
    let taken = kept.record_generated_summary(
        candidate(PromptCaptureMode::Safe, "/tmp/a", "hash_a", "Fix auth"),
        "one".to_string(),
        "req".to_string(),
        "2026-01-01T00:00:00Z".to_string(),
        "<system-reminder>only noise</system-reminder>\n",
        7,
    );
    assert!(taken.is_none());
    assert!(kept.list_session_snapshots("one").is_empty());
    assert_eq!(kept.cleanup_expired(100 * SECOND), 0);
}

#[test]
fn no_excerpts_are_the_default() {
    let none = SnapshotExcerpts::default();
    assert!(none.initial_objective.is_none() && none.compacted_objective.is_none());
    assert!(none.compact_summary.is_none() && none.raw_initial_objective.is_none());
    assert!(none.raw_compacted_objective.is_none() && none.raw_compact_summary.is_none());
}
