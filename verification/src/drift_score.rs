//! The score of how far a compacted conversation drifted from its objective.
use vstd::prelude::*;

verus! {

/// Who scored the drift, and on what evidence.
#[derive(Clone, Copy, Debug, PartialEq, Eq, Structural)]
pub enum DriftScoreSource {
    Deterministic,
    ClaudeAssistedRedacted,
    ClaudeAssistedFull,
}

impl DriftScoreSource {
    /// The label of a source.
    pub open spec fn label(self) -> Seq<char> {
        match self {
            DriftScoreSource::Deterministic => "deterministic"@,
            DriftScoreSource::ClaudeAssistedRedacted => "claude_assisted_redacted"@,
            DriftScoreSource::ClaudeAssistedFull => "claude_assisted_full"@,
        }
    }

    /// The label of the source.
    pub fn as_label(&self) -> (label: &'static str)
        ensures
            label@ == self.label(),
    {
        match self {
            DriftScoreSource::Deterministic => "deterministic",
            DriftScoreSource::ClaudeAssistedRedacted => "claude_assisted_redacted",
            DriftScoreSource::ClaudeAssistedFull => "claude_assisted_full",
        }
    }
}

/// One dimension of a drift score.
#[derive(Debug, PartialEq, Eq)]
pub struct DriftDimensionScore {
    pub score: u8,
    pub label: String,
    pub evidence: Vec<String>,
}

/// The model of a dimension.
pub struct DimensionView {
    pub score: u8,
    pub label: Seq<char>,
    pub evidence: Seq<Seq<char>>,
}

impl DeepView for DriftDimensionScore {
    type V = DimensionView;

    open spec fn deep_view(&self) -> DimensionView {
        DimensionView {
            score: self.score,
            label: self.label@,
            evidence: self.evidence.deep_view(),
        }
    }
}

impl Clone for DriftDimensionScore {
    fn clone(&self) -> (copy: Self)
        ensures
            copy.deep_view() == self.deep_view(),
    {
        DriftDimensionScore {
            score: self.score,
            label: self.label.clone(),
            evidence: copy_texts(&self.evidence),
        }
    }
}

/// A drift score. For `objective_alignment`, `state_preservation` and `actionability` more is
/// better; for `scope_drift` and `risk` more is worse.
#[derive(Debug, PartialEq, Eq)]
pub struct DriftScore {
    pub source: DriftScoreSource,
    pub objective_alignment: DriftDimensionScore,
    pub state_preservation: DriftDimensionScore,
    pub scope_drift: DriftDimensionScore,
    pub actionability: DriftDimensionScore,
    pub risk: DriftDimensionScore,
    pub missing_facts: Vec<String>,
    pub changed_framing: Option<String>,
    pub caveats: Vec<String>,
}

/// The model of a drift score.
pub struct DriftView {
    pub source: DriftScoreSource,
    pub objective_alignment: DimensionView,
    pub state_preservation: DimensionView,
    pub scope_drift: DimensionView,
    pub actionability: DimensionView,
    pub risk: DimensionView,
    pub missing_facts: Seq<Seq<char>>,
    pub changed_framing: Option<Seq<char>>,
    pub caveats: Seq<Seq<char>>,
}

impl DeepView for DriftScore {
    type V = DriftView;

    open spec fn deep_view(&self) -> DriftView {
        DriftView {
            source: self.source,
            objective_alignment: self.objective_alignment.deep_view(),
            state_preservation: self.state_preservation.deep_view(),
            scope_drift: self.scope_drift.deep_view(),
            actionability: self.actionability.deep_view(),
            risk: self.risk.deep_view(),
            missing_facts: self.missing_facts.deep_view(),
            changed_framing: self.changed_framing.deep_view(),
            caveats: self.caveats.deep_view(),
        }
    }
}

impl Clone for DriftScore {
    fn clone(&self) -> (copy: Self)
        ensures
            copy.deep_view() == self.deep_view(),
    {
        DriftScore {
            source: self.source,
            objective_alignment: self.objective_alignment.clone(),
            state_preservation: self.state_preservation.clone(),
            scope_drift: self.scope_drift.clone(),
            actionability: self.actionability.clone(),
            risk: self.risk.clone(),
            missing_facts: copy_texts(&self.missing_facts),
            changed_framing: self.changed_framing.clone(),
            caveats: copy_texts(&self.caveats),
        }
    }
}

/// Copies a list of texts.
pub fn copy_texts(texts: &Vec<String>) -> (copy: Vec<String>)
    ensures
        copy.deep_view() == texts.deep_view(),
{
    let copy = texts.clone();
    assert(copy.deep_view() =~= texts.deep_view());
    copy
}

} // verus!
