//! The making of a snapshot from a candidate.
use vstd::prelude::*;
use vstd::string::*;

use crate::candidate::{CandidateView, RequestSnapshotCandidate};
use crate::capture::PromptCaptureMode;
use crate::detection::{ObservationView, RequestObservation};
use crate::drift::{score_drift_deterministic, snapshot_drift};
use crate::excerpt::{raw_excerpt, safe_excerpt};
use crate::excerpt::{plain_excerpt_of, raw_excerpt_of, safe_excerpt_of, shows_plainly};
use crate::snapshot::{
    CompactionDetection, CompactionDetectionStatus, CompactionSnapshot, DetectionView,
    ExcerptsView, RequestShapeView, SnapshotExcerpts, SnapshotRequestShape, SnapshotView,
};
use crate::text::{blank, is_blank};

verus! {

/// The most characters of a safe excerpt in a snapshot.
pub const SAFE_EXCERPT_CHARS: usize = 240;

/// The most characters of the raw excerpt of the initial objective.
pub const FULL_EXCERPT_CHARS: usize = 4_000;

/// The warning that goes with a snapshot in the full capture mode.
pub open spec fn full_warning() -> Seq<char> {
    "FULL LOCAL-ONLY PROMPT CAPTURE ENABLED: excerpts may contain sensitive prompt text."@
}

/// The excerpts of a snapshot. In the safe mode there are none of the raw text; in the full
/// mode the compacted texts are kept whole.
pub open spec fn excerpts_of(candidate: CandidateView, initial: Seq<char>) -> ExcerptsView {
    let full = candidate.capture_mode == PromptCaptureMode::Full;
    let compacted = candidate.compacted_objective_text;
    ExcerptsView {
        initial_objective: safe_excerpt_of(initial, SAFE_EXCERPT_CHARS as nat),
        compacted_objective: safe_excerpt_of(compacted, SAFE_EXCERPT_CHARS as nat),
        compact_summary: match candidate.compact_summary_text {
            Some(text) => safe_excerpt_of(text, SAFE_EXCERPT_CHARS as nat),
            None => None,
        },
        raw_initial_objective: if full {
            raw_excerpt_of(initial, FULL_EXCERPT_CHARS as nat)
        } else {
            None
        },
        raw_compacted_objective: if full {
            raw_excerpt_of(compacted, compacted.len())
        } else {
            None
        },
        raw_compact_summary: match candidate.compact_summary_text {
            Some(text) => if full {
                raw_excerpt_of(text, text.len())
            } else {
                None
            },
            None => None,
        },
    }
}

/// Each safe excerpt of a text that holds nothing that is redacted but code-like lines shows the
/// text plainly.
pub open spec fn plain_where_possible(
    excerpts: ExcerptsView,
    candidate: CandidateView,
    initial: Seq<char>,
) -> bool {
    let compacted = candidate.compacted_objective_text;
    let max = SAFE_EXCERPT_CHARS as nat;
    &&& shows_plainly(initial) ==> excerpts.initial_objective == plain_excerpt_of(initial, max)
    &&& shows_plainly(compacted) ==> excerpts.compacted_objective == plain_excerpt_of(
        compacted,
        max,
    )
    &&& match candidate.compact_summary_text {
        Some(text) => shows_plainly(text) ==> excerpts.compact_summary == plain_excerpt_of(
            text,
            max,
        ),
        None => excerpts.compact_summary is None,
    }
}

/// The initial objective: that of the request before, or else the candidate's own.
pub open spec fn initial_text(candidate: CandidateView, previous: Option<ObservationView>) -> Seq<
    char,
> {
    match previous {
        Some(p) => if is_blank(p.initial_objective_text) {
            candidate.initial_objective_text
        } else {
            p.initial_objective_text
        },
        None => candidate.initial_objective_text,
    }
}

/// The shape of the candidate's request, beside that of the one before.
pub open spec fn shape_of(
    candidate: CandidateView,
    previous: Option<ObservationView>,
) -> RequestShapeView {
    RequestShapeView {
        message_count: candidate.message_count,
        previous_message_count: match previous {
            Some(p) => Some(p.message_count),
            None => None,
        },
        system_prompt_length: candidate.system_prompt_length,
        previous_system_prompt_length: match previous {
            Some(p) => Some(p.system_prompt_length),
            None => None,
        },
        estimated_input_tokens: candidate.estimated_input_tokens,
        previous_estimated_input_tokens: match previous {
            Some(p) => Some(p.estimated_input_tokens),
            None => None,
        },
        first_message_hash: candidate.first_message_hash,
        previous_first_message_hash: match previous {
            Some(p) => Some(p.first_message_hash),
            None => None,
        },
        system_prompt_hash: candidate.system_prompt_hash,
        compacted_state_hash: candidate.compacted_state_hash,
    }
}

/// Where and when a snapshot is taken.
pub struct OccasionView {
    pub sequence: u64,
    pub timestamp: Seq<char>,
    pub session_id: Seq<char>,
    pub request_id: Seq<char>,
}

/// The snapshot of a candidate before its drift is scored.
pub open spec fn unscored_snapshot(
    occasion: OccasionView,
    candidate: CandidateView,
    previous: Option<ObservationView>,
    detection: DetectionView,
) -> SnapshotView {
    SnapshotView {
        sequence: occasion.sequence,
        timestamp: occasion.timestamp,
        session_id: occasion.session_id,
        request_id: occasion.request_id,
        model: candidate.model,
        capture_mode: candidate.capture_mode,
        local_only: true,
        full_capture_warning: if candidate.capture_mode == PromptCaptureMode::Full {
            Some(full_warning())
        } else {
            None
        },
        detection,
        request: shape_of(candidate, previous),
        excerpts: excerpts_of(candidate, initial_text(candidate, previous)),
        drift: None,
    }
}

/// The snapshot of a candidate, held against the request and the snapshot before it.
pub open spec fn snapshot_of(
    assistant: Seq<char>,
    occasion: OccasionView,
    candidate: CandidateView,
    previous: Option<ObservationView>,
    previous_snapshot: Option<SnapshotView>,
    detection: DetectionView,
) -> SnapshotView {
    let unscored = unscored_snapshot(occasion, candidate, previous, detection);
    SnapshotView {
        drift: Some(
            snapshot_drift(
                assistant,
                initial_text(candidate, previous),
                previous_snapshot,
                unscored,
            ),
        ),
        ..unscored
    }
}

/// The detection that goes with a generated summary.
pub open spec fn summary_detection(assistant: Seq<char>) -> DetectionView {
    DetectionView {
        status: CompactionDetectionStatus::Detected,
        reason: assistant + " Code generated compacted conversation summary"@,
        confidence_percent: 95,
        signals: seq!["compaction summary response"@],
    }
}

/// The candidate of a request that was answered by a summary.
pub open spec fn with_summary(candidate: CandidateView, summary: Seq<char>) -> CandidateView {
    CandidateView {
        compacted_objective_text: summary,
        compact_summary_text: Some(summary),
        detection_text: summary,
        explicit_compaction_marker: true,
        ..candidate
    }
}

/// Makes the excerpts of a snapshot.
pub fn build_excerpts(candidate: &RequestSnapshotCandidate, initial_text: &str) -> (excerpts:
    SnapshotExcerpts)
    ensures
        excerpts.deep_view() == excerpts_of(candidate.deep_view(), initial_text@),
        plain_where_possible(excerpts.deep_view(), candidate.deep_view(), initial_text@),
{
    let mut excerpts = SnapshotExcerpts::default();
    excerpts.initial_objective = safe_excerpt(initial_text, SAFE_EXCERPT_CHARS);
    excerpts.compacted_objective = safe_excerpt(
        candidate.compacted_objective_text.as_str(),
        SAFE_EXCERPT_CHARS,
    );
    if let Some(text) = &candidate.compact_summary_text {
        excerpts.compact_summary = safe_excerpt(text.as_str(), SAFE_EXCERPT_CHARS);
    }
    if candidate.capture_mode == PromptCaptureMode::Full {
        excerpts.raw_initial_objective = raw_excerpt(initial_text, FULL_EXCERPT_CHARS);
        let compacted = candidate.compacted_objective_text.as_str();
        excerpts.raw_compacted_objective = raw_excerpt(compacted, compacted.unicode_len());
        if let Some(text) = &candidate.compact_summary_text {
            let summary = text.as_str();
            excerpts.raw_compact_summary = raw_excerpt(summary, summary.unicode_len());
        }
    }
    excerpts
}

/// Picks the initial objective.
pub fn choose_initial_text<'a>(
    candidate: &'a RequestSnapshotCandidate,
    previous: Option<&'a RequestObservation>,
) -> (text: &'a str)
    ensures
        text@ == initial_text(candidate.deep_view(), previous.deep_view()),
{
    match previous {
        Some(p) => {
            let text = p.initial_objective_text.as_str();
            if blank(text) {
                candidate.initial_objective_text.as_str()
            } else {
                text
            }
        },
        None => candidate.initial_objective_text.as_str(),
    }
}

/// Describes the candidate's request, beside the one before.
pub fn describe_request(
    candidate: &RequestSnapshotCandidate,
    previous: Option<&RequestObservation>,
) -> (shape: SnapshotRequestShape)
    ensures
        shape.deep_view() == shape_of(candidate.deep_view(), previous.deep_view()),
{
    SnapshotRequestShape {
        message_count: candidate.message_count,
        previous_message_count: match previous {
            Some(p) => Some(p.message_count),
            None => None,
        },
        system_prompt_length: candidate.system_prompt_length,
        previous_system_prompt_length: match previous {
            Some(p) => Some(p.system_prompt_length),
            None => None,
        },
        estimated_input_tokens: candidate.estimated_input_tokens,
        previous_estimated_input_tokens: match previous {
            Some(p) => Some(p.estimated_input_tokens),
            None => None,
        },
        first_message_hash: candidate.first_message_hash.clone(),
        previous_first_message_hash: match previous {
            Some(p) => Some(p.first_message_hash.clone()),
            None => None,
        },
        system_prompt_hash: candidate.system_prompt_hash.clone(),
        compacted_state_hash: candidate.compacted_state_hash.clone(),
    }
}

/// The detection that goes with a generated summary.
pub fn detect_summary(assistant: &str) -> (detection: CompactionDetection)
    ensures
        detection.deep_view() == summary_detection(assistant@),
{
    let mut signals: Vec<String> = Vec::new();
    signals.push("compaction summary response".to_string());
    assert(signals.deep_view() =~= seq!["compaction summary response"@]);
    let mut reason = assistant.to_string();
    reason.append(" Code generated compacted conversation summary");
    CompactionDetection {
        status: CompactionDetectionStatus::Detected,
        reason,
        confidence_percent: 95,
        signals,
    }
}

/// Makes the snapshot of a candidate.
pub fn make_snapshot(
    assistant: &str,
    sequence: u64,
    timestamp: String,
    session_id: &String,
    request_id: String,
    candidate: &RequestSnapshotCandidate,
    previous: Option<&RequestObservation>,
    previous_snapshot: Option<&CompactionSnapshot>,
    detection: CompactionDetection,
) -> (snapshot: CompactionSnapshot)
    ensures
        snapshot.deep_view() == snapshot_of(
            assistant@,
            (OccasionView {
                sequence,
                timestamp: timestamp@,
                session_id: session_id@,
                request_id: request_id@,
            }),
            candidate.deep_view(),
            previous.deep_view(),
            previous_snapshot.deep_view(),
            detection.deep_view(),
        ),
        plain_where_possible(
            snapshot.deep_view().excerpts,
            candidate.deep_view(),
            initial_text(candidate.deep_view(), previous.deep_view()),
        ),
{
    let initial = choose_initial_text(candidate, previous);
    let full_capture_warning = if candidate.capture_mode == PromptCaptureMode::Full {
        Some(
            "FULL LOCAL-ONLY PROMPT CAPTURE ENABLED: excerpts may contain sensitive prompt text.".to_string(),
        )
    } else {
        None
    };
    let mut snapshot = CompactionSnapshot {
        sequence,
        timestamp,
        session_id: session_id.clone(),
        request_id,
        model: candidate.model.clone(),
        capture_mode: candidate.capture_mode,
        local_only: true,
        full_capture_warning,
        detection,
        request: describe_request(candidate, previous),
        excerpts: build_excerpts(candidate, initial),
        drift: None,
    };
    let drift = score_drift_deterministic(assistant, initial, previous_snapshot, &snapshot);
    snapshot.drift = Some(drift);
    snapshot
}

} // verus!
