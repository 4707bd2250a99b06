//! Detection of compacted conversations, by the shape of one request beside the one before.
use vstd::prelude::*;
use vstd::string::*;

use crate::candidate::{looks_like_compact_summary, CandidateView, RequestSnapshotCandidate};
use crate::candidate::resembles_summary;
use crate::numeral::{decimal, push_decimal};
use crate::snapshot::{CompactionDetection, CompactionDetectionStatus, DetectionView};
use crate::text::{join_texts, joined};

verus! {

/// What is remembered of a request, to hold the next one against it.
#[derive(Debug)]
pub struct RequestObservation {
    pub session_id: String,
    pub working_dir: String,
    pub message_count: usize,
    pub system_prompt_length: usize,
    pub estimated_input_tokens: usize,
    pub first_message_hash: String,
    pub system_prompt_hash: String,
    pub compacted_state_hash: String,
    pub initial_objective_text: String,
    /// When the request was seen, in nanoseconds of the caller's clock.
    pub observed_at: u128,
}

/// The model of an observation.
pub struct ObservationView {
    pub session_id: Seq<char>,
    pub working_dir: Seq<char>,
    pub message_count: usize,
    pub system_prompt_length: usize,
    pub estimated_input_tokens: usize,
    pub first_message_hash: Seq<char>,
    pub system_prompt_hash: Seq<char>,
    pub compacted_state_hash: Seq<char>,
    pub initial_objective_text: Seq<char>,
    pub observed_at: u128,
}

impl DeepView for RequestObservation {
    type V = ObservationView;

    open spec fn deep_view(&self) -> ObservationView {
        ObservationView {
            session_id: self.session_id@,
            working_dir: self.working_dir@,
            message_count: self.message_count,
            system_prompt_length: self.system_prompt_length,
            estimated_input_tokens: self.estimated_input_tokens,
            first_message_hash: self.first_message_hash@,
            system_prompt_hash: self.system_prompt_hash@,
            compacted_state_hash: self.compacted_state_hash@,
            initial_objective_text: self.initial_objective_text@,
            observed_at: self.observed_at,
        }
    }
}

impl Clone for RequestObservation {
    fn clone(&self) -> (copy: Self)
        ensures
            copy.deep_view() == self.deep_view(),
    {
        RequestObservation {
            session_id: self.session_id.clone(),
            working_dir: self.working_dir.clone(),
            message_count: self.message_count,
            system_prompt_length: self.system_prompt_length,
            estimated_input_tokens: self.estimated_input_tokens,
            first_message_hash: self.first_message_hash.clone(),
            system_prompt_hash: self.system_prompt_hash.clone(),
            compacted_state_hash: self.compacted_state_hash.clone(),
            initial_objective_text: self.initial_objective_text.clone(),
            observed_at: self.observed_at,
        }
    }
}

/// The observation of a candidate in a session.
pub open spec fn observation_of(
    candidate: CandidateView,
    session_id: Seq<char>,
    now: u128,
) -> ObservationView {
    ObservationView {
        session_id,
        working_dir: candidate.working_dir,
        message_count: candidate.message_count,
        system_prompt_length: candidate.system_prompt_length,
        estimated_input_tokens: candidate.estimated_input_tokens,
        first_message_hash: candidate.first_message_hash,
        system_prompt_hash: candidate.system_prompt_hash,
        compacted_state_hash: candidate.compacted_state_hash,
        initial_objective_text: candidate.initial_objective_text,
        observed_at: now,
    }
}

/// Notes what is to be remembered of a candidate.
pub fn observe(
    candidate: &RequestSnapshotCandidate,
    session_id: &String,
    now: u128,
) -> (observation:
    RequestObservation)
    ensures
        observation.deep_view() == observation_of(candidate.deep_view(), session_id@, now),
{
    RequestObservation {
        session_id: session_id.clone(),
        working_dir: candidate.working_dir.clone(),
        message_count: candidate.message_count,
        system_prompt_length: candidate.system_prompt_length,
        estimated_input_tokens: candidate.estimated_input_tokens,
        first_message_hash: candidate.first_message_hash.clone(),
        system_prompt_hash: candidate.system_prompt_hash.clone(),
        compacted_state_hash: candidate.compacted_state_hash.clone(),
        initial_objective_text: candidate.initial_objective_text.clone(),
        observed_at: now,
    }
}

// ---- Signs in the shape of a request ----

/// The product, or the largest number that a machine word holds where it is larger.
pub open spec fn scaled(n: int, factor: int) -> int {
    if n * factor <= usize::MAX {
        n * factor
    } else {
        usize::MAX as int
    }
}

/// There were four messages or more, and at most half of them are left.
pub open spec fn messages_dropped(candidate: CandidateView, previous: ObservationView) -> bool {
    previous.message_count >= 4 && scaled(candidate.message_count as int, 2)
        <= previous.message_count
}

/// There were two thousand tokens or more, and at most three fifths of them are left.
pub open spec fn tokens_dropped(candidate: CandidateView, previous: ObservationView) -> bool {
    previous.estimated_input_tokens >= 2000 && scaled(candidate.estimated_input_tokens as int, 100)
        <= scaled(previous.estimated_input_tokens as int, 60)
}

/// The length of the system prompt changed by a quarter or more.
pub open spec fn prompt_changed(candidate: CandidateView, previous: ObservationView) -> bool {
    let delta = if candidate.system_prompt_length >= previous.system_prompt_length {
        candidate.system_prompt_length - previous.system_prompt_length
    } else {
        previous.system_prompt_length - candidate.system_prompt_length
    };
    previous.system_prompt_length > 0 && scaled(delta, 100) >= scaled(
        previous.system_prompt_length as int,
        25,
    )
}

/// The conversation begins otherwise, in the same working directory.
pub open spec fn start_changed(candidate: CandidateView, previous: ObservationView) -> bool {
    previous.working_dir == candidate.working_dir && previous.first_message_hash
        != candidate.first_message_hash
}

/// The request is shaped as after a compaction: it says so, or it differs from the one before
/// in one of the ways above. Without such a sign nothing is detected.
pub open spec fn has_compaction_shape(
    candidate: CandidateView,
    previous: Option<ObservationView>,
) -> bool {
    candidate.explicit_compaction_marker || match previous {
        Some(p) => messages_dropped(candidate, p) || tokens_dropped(candidate, p) || prompt_changed(
            candidate,
            p,
        ) || start_changed(candidate, p),
        None => false,
    }
}

/// The text of a change from one number to another.
pub open spec fn change_text(what: Seq<char>, from: nat, to: nat) -> Seq<char> {
    what + decimal(from) + " -> "@ + decimal(to)
}

/// A list of the text where the condition holds, and of nothing where it does not.
pub open spec fn only_if(held: bool, text: Seq<char>) -> Seq<Seq<char>> {
    if held {
        seq![text]
    } else {
        Seq::empty()
    }
}

/// The signs that the text of a request gives.
pub open spec fn text_signals(candidate: CandidateView) -> Seq<Seq<char>> {
    if candidate.explicit_compaction_marker {
        seq!["explicit compact-summary marker"@]
    } else {
        only_if(
            resembles_summary(candidate.detection_text),
            "compact-summary-looking text block"@,
        )
    }
}

/// The signs that a request gives beside the one before it.
pub open spec fn change_signals(candidate: CandidateView, previous: ObservationView) -> Seq<
    Seq<char>,
> {
    only_if(
        messages_dropped(candidate, previous),
        change_text(
            "message count dropped "@,
            previous.message_count as nat,
            candidate.message_count as nat,
        ),
    ) + only_if(
        tokens_dropped(candidate, previous),
        change_text(
            "estimated input tokens dropped "@,
            previous.estimated_input_tokens as nat,
            candidate.estimated_input_tokens as nat,
        ),
    ) + only_if(
        prompt_changed(candidate, previous),
        change_text(
            "system prompt length changed "@,
            previous.system_prompt_length as nat,
            candidate.system_prompt_length as nat,
        ),
    ) + only_if(
        start_changed(candidate, previous),
        "first message hash changed in same working directory"@,
    )
}

/// The context was nearly full before the request: four fifths of it or more.
pub open spec fn nearly_full(previous_fill_percent: Option<u32>) -> bool {
    previous_fill_percent matches Some(fill) && fill >= 80
}

/// The signs of a compaction, in the order in which they are told.
pub open spec fn signals_of(
    candidate: CandidateView,
    previous: Option<ObservationView>,
    previous_fill_percent: Option<u32>,
) -> Seq<Seq<char>> {
    text_signals(candidate) + match previous {
        Some(p) => change_signals(candidate, p),
        None => Seq::empty(),
    } + only_if(
        nearly_full(previous_fill_percent),
        "previous context fill was near compaction threshold"@,
    )
}

/// The signs are enough to take the compaction as a fact: the request says so, or there are
/// three of them, or a text that reads like a summary goes with a drop in size.
pub open spec fn is_certain(
    candidate: CandidateView,
    previous: Option<ObservationView>,
    previous_fill_percent: Option<u32>,
) -> bool {
    ||| candidate.explicit_compaction_marker
    ||| signals_of(candidate, previous, previous_fill_percent).len() >= 3
    ||| resembles_summary(candidate.detection_text) && match previous {
        Some(p) => messages_dropped(candidate, p) || tokens_dropped(candidate, p),
        None => false,
    }
}

/// The lesser of two numbers.
pub open spec fn at_most(n: nat, limit: nat) -> nat {
    if n <= limit {
        n
    } else {
        limit
    }
}

/// What is detected of a compaction.
pub open spec fn detection_of(
    candidate: CandidateView,
    previous: Option<ObservationView>,
    previous_fill_percent: Option<u32>,
) -> Option<DetectionView> {
    let signals = signals_of(candidate, previous, previous_fill_percent);
    if !has_compaction_shape(candidate, previous) {
        None
    } else if is_certain(candidate, previous, previous_fill_percent) {
        Some(
            DetectionView {
                status: CompactionDetectionStatus::Detected,
                reason: joined(signals, "; "@),
                confidence_percent: at_most(68 + 6 * signals.len(), 95) as u8,
                signals,
            },
        )
    } else {
        Some(
            DetectionView {
                status: CompactionDetectionStatus::Suspected,
                reason: joined(signals, "; "@),
                confidence_percent: at_most(35 + 10 * signals.len(), 64) as u8,
                signals,
            },
        )
    }
}

/// Multiplies, up to the largest number that a machine word holds.
fn scale(n: usize, factor: usize) -> (out: usize)
    requires
        factor <= 100,
    ensures
        out == scaled(n as int, factor as int),
{
    assert(0 <= n * factor <= u64::MAX * 100) by (nonlinear_arith)
        requires
            0 <= n <= u64::MAX,
            0 <= factor <= 100,
    ;
    let wide: u128 = (n as u128) * (factor as u128);
    if wide <= usize::MAX as u128 {
        wide as usize
    } else {
        usize::MAX
    }
}

/// Writes a change from one number to another.
fn write_change(what: &str, from: usize, to: usize) -> (text: String)
    ensures
        text@ == change_text(what@, from as nat, to as nat),
{
    let mut text = what.to_string();
    push_decimal(&mut text, from as u64);
    text.append(" -> ");
    push_decimal(&mut text, to as u64);
    text
}

/// Adds a sign where the condition holds.
fn add_signal(signals: &mut Vec<String>, held: bool, text: &str)
    ensures
        final(signals).deep_view() == old(signals).deep_view() + only_if(held, text@),
{
    let ghost before = signals.deep_view();
    if held {
        signals.push(text.to_string());
        assert(signals.deep_view() =~= before.push(text@));
    }
    assert(signals.deep_view() =~= before + only_if(held, text@));
}

/// Looks for the signs of a compaction.
pub fn detect_compaction(
    candidate: &RequestSnapshotCandidate,
    previous: Option<&RequestObservation>,
    previous_context_fill_percent: Option<u32>,
) -> (detection: Option<CompactionDetection>)
    ensures
        detection.deep_view() == detection_of(
            candidate.deep_view(),
            previous.deep_view(),
            previous_context_fill_percent,
        ),
{
    let ghost c = candidate.deep_view();
    let looks: bool = looks_like_compact_summary(candidate.detection_text.as_str());
    let mut signals: Vec<String> = Vec::new();
    assert(signals.deep_view() =~= Seq::<Seq<char>>::empty());
    let mut shaped: bool = candidate.explicit_compaction_marker;
    let mut dropped: bool = false;
    if candidate.explicit_compaction_marker {
        add_signal(&mut signals, true, "explicit compact-summary marker");
    } else {
        add_signal(&mut signals, looks, "compact-summary-looking text block");
    }
    assert(signals.deep_view() =~= text_signals(c));
    if let Some(p) = previous {
        let fewer_messages: bool = p.message_count >= 4 && scale(candidate.message_count, 2)
            <= p.message_count;
        let change = write_change(
            "message count dropped ",
            p.message_count,
            candidate.message_count,
        );
        add_signal(&mut signals, fewer_messages, change.as_str());
        let fewer_tokens: bool = p.estimated_input_tokens >= 2000 && scale(
            candidate.estimated_input_tokens,
            100,
        ) <= scale(p.estimated_input_tokens, 60);
        let change = write_change(
            "estimated input tokens dropped ",
            p.estimated_input_tokens,
            candidate.estimated_input_tokens,
        );
        add_signal(&mut signals, fewer_tokens, change.as_str());
        let delta: usize = if candidate.system_prompt_length >= p.system_prompt_length {
            candidate.system_prompt_length - p.system_prompt_length
        } else {
            p.system_prompt_length - candidate.system_prompt_length
        };
        let other_prompt: bool = p.system_prompt_length > 0 && scale(delta, 100) >= scale(
            p.system_prompt_length,
            25,
        );
        let change = write_change(
            "system prompt length changed ",
            p.system_prompt_length,
            candidate.system_prompt_length,
        );
        add_signal(&mut signals, other_prompt, change.as_str());
        let other_start: bool = p.working_dir == candidate.working_dir && p.first_message_hash
            != candidate.first_message_hash;
        add_signal(
            &mut signals,
            other_start,
            "first message hash changed in same working directory",
        );
        assert(signals.deep_view() =~= text_signals(c) + change_signals(c, p.deep_view()));
        dropped = fewer_messages || fewer_tokens;
        shaped = shaped || dropped || other_prompt || other_start;
    }
    let full: bool = match previous_context_fill_percent {
        Some(fill) => fill >= 80,
        None => false,
    };
    add_signal(&mut signals, full, "previous context fill was near compaction threshold");
    proof {
        assert(signals.deep_view() =~= signals_of(
            c,
            previous.deep_view(),
            previous_context_fill_percent,
        ));
    }
    if !shaped {
        return None;
    }
    let count: usize = signals.len();
    let certain: bool = candidate.explicit_compaction_marker || count >= 3 || (looks && dropped);
    let reason = join_texts(&signals, "; ");
    if certain {
        Some(
            CompactionDetection {
                status: CompactionDetectionStatus::Detected,
                reason,
                confidence_percent: if count >= 5 {
                    95
                } else {
                    (68 + 6 * count) as u8
                },
                signals,
            },
        )
    } else {
        Some(
            CompactionDetection {
                status: CompactionDetectionStatus::Suspected,
                reason,
                confidence_percent: if count >= 3 {
                    64
                } else {
                    (35 + 10 * count) as u8
                },
                signals,
            },
        )
    }
}

} // verus!
