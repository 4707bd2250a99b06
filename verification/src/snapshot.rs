//! Snapshots of compacted conversations.
use vstd::prelude::*;

use crate::capture::PromptCaptureMode;
use crate::drift_score::{copy_texts, DriftScore, DriftView};
use crate::excerpt::{ExcerptView, PromptExcerpt};

verus! {

/// How sure it is that a conversation was compacted.
#[derive(Clone, Copy, Debug, PartialEq, Eq, Structural)]
pub enum CompactionDetectionStatus {
    Suspected,
    Detected,
}

/// The signs that a conversation was compacted.
#[derive(Debug, PartialEq, Eq)]
pub struct CompactionDetection {
    pub status: CompactionDetectionStatus,
    pub reason: String,
    /// The confidence in hundredths.
    pub confidence_percent: u8,
    pub signals: Vec<String>,
}

/// The model of a detection.
pub struct DetectionView {
    pub status: CompactionDetectionStatus,
    pub reason: Seq<char>,
    pub confidence_percent: u8,
    pub signals: Seq<Seq<char>>,
}

impl DeepView for CompactionDetection {
    type V = DetectionView;

    open spec fn deep_view(&self) -> DetectionView {
        DetectionView {
            status: self.status,
            reason: self.reason@,
            confidence_percent: self.confidence_percent,
            signals: self.signals.deep_view(),
        }
    }
}

impl Clone for CompactionDetection {
    fn clone(&self) -> (copy: Self)
        ensures
            copy.deep_view() == self.deep_view(),
    {
        CompactionDetection {
            status: self.status,
            reason: self.reason.clone(),
            confidence_percent: self.confidence_percent,
            signals: copy_texts(&self.signals),
        }
    }
}

/// The shape of the request that gave rise to a snapshot, beside that of the one before it.
#[derive(Debug, PartialEq, Eq)]
pub struct SnapshotRequestShape {
    pub message_count: usize,
    pub previous_message_count: Option<usize>,
    pub system_prompt_length: usize,
    pub previous_system_prompt_length: Option<usize>,
    pub estimated_input_tokens: usize,
    pub previous_estimated_input_tokens: Option<usize>,
    pub first_message_hash: String,
    pub previous_first_message_hash: Option<String>,
    pub system_prompt_hash: String,
    pub compacted_state_hash: String,
}

/// The model of a request's shape.
pub struct RequestShapeView {
    pub message_count: usize,
    pub previous_message_count: Option<usize>,
    pub system_prompt_length: usize,
    pub previous_system_prompt_length: Option<usize>,
    pub estimated_input_tokens: usize,
    pub previous_estimated_input_tokens: Option<usize>,
    pub first_message_hash: Seq<char>,
    pub previous_first_message_hash: Option<Seq<char>>,
    pub system_prompt_hash: Seq<char>,
    pub compacted_state_hash: Seq<char>,
}

impl DeepView for SnapshotRequestShape {
    type V = RequestShapeView;

    open spec fn deep_view(&self) -> RequestShapeView {
        RequestShapeView {
            message_count: self.message_count,
            previous_message_count: self.previous_message_count,
            system_prompt_length: self.system_prompt_length,
            previous_system_prompt_length: self.previous_system_prompt_length,
            estimated_input_tokens: self.estimated_input_tokens,
            previous_estimated_input_tokens: self.previous_estimated_input_tokens,
            first_message_hash: self.first_message_hash@,
            previous_first_message_hash: self.previous_first_message_hash.deep_view(),
            system_prompt_hash: self.system_prompt_hash@,
            compacted_state_hash: self.compacted_state_hash@,
        }
    }
}

impl Clone for SnapshotRequestShape {
    fn clone(&self) -> (copy: Self)
        ensures
            copy.deep_view() == self.deep_view(),
    {
        SnapshotRequestShape {
            message_count: self.message_count,
            previous_message_count: self.previous_message_count,
            system_prompt_length: self.system_prompt_length,
            previous_system_prompt_length: self.previous_system_prompt_length,
            estimated_input_tokens: self.estimated_input_tokens,
            previous_estimated_input_tokens: self.previous_estimated_input_tokens,
            first_message_hash: self.first_message_hash.clone(),
            previous_first_message_hash: self.previous_first_message_hash.clone(),
            system_prompt_hash: self.system_prompt_hash.clone(),
            compacted_state_hash: self.compacted_state_hash.clone(),
        }
    }
}

/// The excerpts of a snapshot. The raw ones are there in the full capture mode only.
#[derive(Debug, PartialEq, Eq)]
pub struct SnapshotExcerpts {
    pub initial_objective: Option<PromptExcerpt>,
    pub compacted_objective: Option<PromptExcerpt>,
    pub compact_summary: Option<PromptExcerpt>,
    pub raw_initial_objective: Option<PromptExcerpt>,
    pub raw_compacted_objective: Option<PromptExcerpt>,
    pub raw_compact_summary: Option<PromptExcerpt>,
}

/// The model of a snapshot's excerpts.
pub struct ExcerptsView {
    pub initial_objective: Option<ExcerptView>,
    pub compacted_objective: Option<ExcerptView>,
    pub compact_summary: Option<ExcerptView>,
    pub raw_initial_objective: Option<ExcerptView>,
    pub raw_compacted_objective: Option<ExcerptView>,
    pub raw_compact_summary: Option<ExcerptView>,
}

impl DeepView for SnapshotExcerpts {
    type V = ExcerptsView;

    open spec fn deep_view(&self) -> ExcerptsView {
        ExcerptsView {
            initial_objective: self.initial_objective.deep_view(),
            compacted_objective: self.compacted_objective.deep_view(),
            compact_summary: self.compact_summary.deep_view(),
            raw_initial_objective: self.raw_initial_objective.deep_view(),
            raw_compacted_objective: self.raw_compacted_objective.deep_view(),
            raw_compact_summary: self.raw_compact_summary.deep_view(),
        }
    }
}

impl Clone for SnapshotExcerpts {
    fn clone(&self) -> (copy: Self)
        ensures
            copy.deep_view() == self.deep_view(),
    {
        SnapshotExcerpts {
            initial_objective: self.initial_objective.clone(),
            compacted_objective: self.compacted_objective.clone(),
            compact_summary: self.compact_summary.clone(),
            raw_initial_objective: self.raw_initial_objective.clone(),
            raw_compacted_objective: self.raw_compacted_objective.clone(),
            raw_compact_summary: self.raw_compact_summary.clone(),
        }
    }
}

impl ExcerptsView {
    /// No excerpt at all.
    pub open spec fn none() -> ExcerptsView {
        ExcerptsView {
            initial_objective: None,
            compacted_objective: None,
            compact_summary: None,
            raw_initial_objective: None,
            raw_compacted_objective: None,
            raw_compact_summary: None,
        }
    }
}

impl Default for SnapshotExcerpts {
    fn default() -> (excerpts: Self)
        ensures
            excerpts.deep_view() == ExcerptsView::none(),
    {
        SnapshotExcerpts {
            initial_objective: None,
            compacted_objective: None,
            compact_summary: None,
            raw_initial_objective: None,
            raw_compacted_objective: None,
            raw_compact_summary: None,
        }
    }
}

/// A snapshot of a conversation at the point where it was compacted.
#[derive(Debug, PartialEq, Eq)]
pub struct CompactionSnapshot {
    pub sequence: u64,
    pub timestamp: String,
    pub session_id: String,
    pub request_id: String,
    pub model: String,
    pub capture_mode: PromptCaptureMode,
    pub local_only: bool,
    pub full_capture_warning: Option<String>,
    pub detection: CompactionDetection,
    pub request: SnapshotRequestShape,
    pub excerpts: SnapshotExcerpts,
    pub drift: Option<DriftScore>,
}

/// The model of a snapshot.
pub struct SnapshotView {
    pub sequence: u64,
    pub timestamp: Seq<char>,
    pub session_id: Seq<char>,
    pub request_id: Seq<char>,
    pub model: Seq<char>,
    pub capture_mode: PromptCaptureMode,
    pub local_only: bool,
    pub full_capture_warning: Option<Seq<char>>,
    pub detection: DetectionView,
    pub request: RequestShapeView,
    pub excerpts: ExcerptsView,
    pub drift: Option<DriftView>,
}

impl DeepView for CompactionSnapshot {
    type V = SnapshotView;

    open spec fn deep_view(&self) -> SnapshotView {
        SnapshotView {
            sequence: self.sequence,
            timestamp: self.timestamp@,
            session_id: self.session_id@,
            request_id: self.request_id@,
            model: self.model@,
            capture_mode: self.capture_mode,
            local_only: self.local_only,
            full_capture_warning: self.full_capture_warning.deep_view(),
            detection: self.detection.deep_view(),
            request: self.request.deep_view(),
            excerpts: self.excerpts.deep_view(),
            drift: self.drift.deep_view(),
        }
    }
}

impl Clone for CompactionSnapshot {
    fn clone(&self) -> (copy: Self)
        ensures
            copy.deep_view() == self.deep_view(),
    {
        CompactionSnapshot {
            sequence: self.sequence,
            timestamp: self.timestamp.clone(),
            session_id: self.session_id.clone(),
            request_id: self.request_id.clone(),
            model: self.model.clone(),
            capture_mode: self.capture_mode,
            local_only: self.local_only,
            full_capture_warning: self.full_capture_warning.clone(),
            detection: self.detection.clone(),
            request: self.request.clone(),
            excerpts: self.excerpts.clone(),
            drift: self.drift.clone(),
        }
    }
}

} // verus!
