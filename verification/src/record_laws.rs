//! What a snapshot holds of its request and of the requests before, told over the calls that
//! came first.
use vstd::prelude::*;

use crate::candidate::CandidateView;
use crate::capture::PromptCaptureMode;
use crate::drift::snapshot_drift;
use crate::drift_score::DriftView;
use crate::excerpt::{raw_excerpt_of, safe_excerpt_of};
use crate::snapshot::{CompactionDetectionStatus, SnapshotView};
use crate::store_model::{place_of, StoreView};
use crate::text::trimmed;

verus! {

/// The snapshot is held against the earlier request: its previous counts and its previous hash
/// are those of that request, and its initial objective is the objective of that request, or the
/// candidate's own where that is blank.
pub open spec fn held_against(
    snapshot: SnapshotView,
    candidate: CandidateView,
    earlier: CandidateView,
) -> bool {
    &&& snapshot.request.previous_message_count == Some(earlier.message_count)
    &&& snapshot.request.previous_system_prompt_length == Some(earlier.system_prompt_length)
    &&& snapshot.request.previous_estimated_input_tokens == Some(earlier.estimated_input_tokens)
    &&& snapshot.request.previous_first_message_hash == Some(earlier.first_message_hash)
    &&& trimmed(earlier.initial_objective_text).len() > 0 ==> has_objective(
        snapshot,
        earlier.initial_objective_text,
    )
    &&& trimmed(earlier.initial_objective_text).len() == 0 ==> has_objective(
        snapshot,
        candidate.initial_objective_text,
    )
}

/// The snapshot is held against no request.
pub open spec fn held_against_none(snapshot: SnapshotView, candidate: CandidateView) -> bool {
    &&& snapshot.request.previous_message_count is None
    &&& snapshot.request.previous_system_prompt_length is None
    &&& snapshot.request.previous_estimated_input_tokens is None
    &&& snapshot.request.previous_first_message_hash is None
    &&& has_objective(snapshot, candidate.initial_objective_text)
}

/// The initial objective of the snapshot is the excerpt of the given text: safe in 240
/// characters, and raw in 4000 in the full mode.
pub open spec fn has_objective(snapshot: SnapshotView, objective: Seq<char>) -> bool {
    &&& snapshot.excerpts.initial_objective == safe_excerpt_of(objective, 240)
    &&& snapshot.excerpts.raw_initial_objective == if snapshot.capture_mode
        == PromptCaptureMode::Full {
        raw_excerpt_of(objective, 4_000)
    } else {
        None
    }
}

/// The objective that a candidate is measured by, beside an earlier request.
pub open spec fn objective_beside(candidate: CandidateView, earlier: CandidateView) -> Seq<char> {
    if trimmed(earlier.initial_objective_text).len() > 0 {
        earlier.initial_objective_text
    } else {
        candidate.initial_objective_text
    }
}

/// The snapshot tells of the request itself as it is, and shows what was left of it.
pub open spec fn tells_of(
    snapshot: SnapshotView,
    candidate: CandidateView,
    left: Seq<char>,
) -> bool {
    let full = candidate.capture_mode == PromptCaptureMode::Full;
    &&& snapshot.model == candidate.model
    &&& snapshot.capture_mode == candidate.capture_mode
    &&& snapshot.local_only
    &&& snapshot.full_capture_warning == if full {
        Some(
            "FULL LOCAL-ONLY PROMPT CAPTURE ENABLED: excerpts may contain sensitive prompt text."@,
        )
    } else {
        None
    }
    &&& snapshot.request.message_count == candidate.message_count
    &&& snapshot.request.system_prompt_length == candidate.system_prompt_length
    &&& snapshot.request.estimated_input_tokens == candidate.estimated_input_tokens
    &&& snapshot.request.first_message_hash == candidate.first_message_hash
    &&& snapshot.request.system_prompt_hash == candidate.system_prompt_hash
    &&& snapshot.request.compacted_state_hash == candidate.compacted_state_hash
    &&& snapshot.excerpts.compacted_objective == safe_excerpt_of(left, 240)
    &&& snapshot.excerpts.raw_compacted_objective == if full {
        raw_excerpt_of(left, left.len())
    } else {
        None
    }
}

// ---- A generated summary ----

/// After a request was recorded in a session, a generated summary in that session is held
/// against that request, whatever directory it comes from, and the drift of its snapshot is
/// scored against the objective of that request.
pub proof fn law_summary_is_held_against_the_request(
    store: StoreView,
    earlier: CandidateView,
    taken: Option<SnapshotView>,
    now: u128,
    candidate: CandidateView,
    session_id: Seq<char>,
    request_id: Seq<char>,
    timestamp: Seq<char>,
    summary: Seq<char>,
    later: u128,
)
    ensures
        ({
            let after = store.after_request(earlier, session_id, taken, now);
            let snapshot = after.summary_snapshot(
                candidate,
                session_id,
                request_id,
                timestamp,
                summary,
                later,
            );
            let listed = after.listed(session_id);
            &&& held_against(snapshot, candidate, earlier)
            &&& tells_of(snapshot, candidate, summary)
            &&& snapshot.drift == Some(
                snapshot_drift(
                    store.assistant,
                    objective_beside(candidate, earlier),
                    if listed.len() > 0 {
                        Some(listed.last())
                    } else {
                        None
                    },
                    SnapshotView { drift: None, ..snapshot },
                ),
            )
        }),
{
}

/// In a session without requests, a generated summary is held against the last request of its
/// working directory, however that one began.
pub proof fn law_summary_is_held_against_its_directory(
    store: StoreView,
    earlier: CandidateView,
    other_session: Seq<char>,
    taken: Option<SnapshotView>,
    now: u128,
    candidate: CandidateView,
    session_id: Seq<char>,
    request_id: Seq<char>,
    timestamp: Seq<char>,
    summary: Seq<char>,
    later: u128,
)
    requires
        session_id != other_session,
        store.observed_in(session_id) is None,
        candidate.working_dir == earlier.working_dir,
    ensures
        held_against(
            store.after_request(earlier, other_session, taken, now).summary_snapshot(
                candidate,
                session_id,
                request_id,
                timestamp,
                summary,
                later,
            ),
            candidate,
            earlier,
        ),
{
}

/// Where neither the session nor the directory is known, a generated summary is held against
/// nothing.
pub proof fn law_first_summary_is_held_against_nothing(
    store: StoreView,
    candidate: CandidateView,
    session_id: Seq<char>,
    request_id: Seq<char>,
    timestamp: Seq<char>,
    summary: Seq<char>,
    now: u128,
)
    requires
        store.observed_in(session_id) is None,
        !store.by_working_dir.contains_key(candidate.working_dir),
    ensures
        held_against_none(
            store.summary_snapshot(candidate, session_id, request_id, timestamp, summary, now),
            candidate,
        ),
{
}

/// The snapshot of a generated summary says when and where it was taken, and that the assistant
/// generated it; the summary is what was left, and is its own summary.
pub proof fn law_summary_snapshot_says_what_it_is(
    store: StoreView,
    candidate: CandidateView,
    session_id: Seq<char>,
    request_id: Seq<char>,
    timestamp: Seq<char>,
    summary: Seq<char>,
    now: u128,
)
    ensures
        ({
            let snapshot = store.summary_snapshot(
                candidate,
                session_id,
                request_id,
                timestamp,
                summary,
                now,
            );
            &&& snapshot.timestamp == timestamp
            &&& snapshot.session_id == session_id
            &&& snapshot.request_id == request_id
            &&& tells_of(snapshot, candidate, summary)
            &&& snapshot.excerpts.compact_summary == snapshot.excerpts.compacted_objective
            &&& snapshot.excerpts.raw_compact_summary == snapshot.excerpts.raw_compacted_objective
            &&& snapshot.detection.status == CompactionDetectionStatus::Detected
            &&& snapshot.detection.confidence_percent == 95
            &&& snapshot.detection.signals == seq!["compaction summary response"@]
            &&& snapshot.detection.reason == store.assistant
                + " Code generated compacted conversation summary"@
        }),
{
}

// ---- A request ----

/// After a request was recorded in a session, the next one in that session is held against it,
/// wherever that one comes from, and scored against its objective and against the latest
/// snapshot of the session.
pub proof fn law_request_is_held_against_the_one_before(
    store: StoreView,
    earlier: CandidateView,
    taken: Option<SnapshotView>,
    now: u128,
    candidate: CandidateView,
    session_id: Seq<char>,
    request_id: Seq<char>,
    timestamp: Seq<char>,
    fill_percent: Option<u32>,
    later: u128,
)
    ensures
        ({
            let after = store.after_request(earlier, session_id, taken, now);
            let listed = after.listed(session_id);
            match after.request_snapshot(
                candidate,
                session_id,
                request_id,
                timestamp,
                fill_percent,
                later,
            ) {
                Some(snapshot) => {
                    &&& snapshot.timestamp == timestamp
                    &&& snapshot.session_id == session_id
                    &&& snapshot.request_id == request_id
                    &&& held_against(snapshot, candidate, earlier)
                    &&& tells_of(snapshot, candidate, candidate.compacted_objective_text)
                    &&& snapshot.drift == Some(
                        snapshot_drift(
                            store.assistant,
                            objective_beside(candidate, earlier),
                            if listed.len() > 0 {
                                Some(listed.last())
                            } else {
                                None
                            },
                            SnapshotView { drift: None, ..snapshot },
                        ),
                    )
                },
                None => !candidate.explicit_compaction_marker,
            }
        }),
{
}

/// The first request of a session is held against the last one of its working directory where
/// that one began otherwise, and a snapshot is then taken; where it began alike, it is held
/// against nothing.
pub proof fn law_first_request_is_held_against_its_directory(
    store: StoreView,
    earlier: CandidateView,
    other_session: Seq<char>,
    taken: Option<SnapshotView>,
    now: u128,
    candidate: CandidateView,
    session_id: Seq<char>,
    request_id: Seq<char>,
    timestamp: Seq<char>,
    fill_percent: Option<u32>,
    later: u128,
)
    requires
        session_id != other_session,
        store.observed_in(session_id) is None,
        candidate.working_dir == earlier.working_dir,
    ensures
        ({
            let snapshot = store.after_request(earlier, other_session, taken, now).request_snapshot(
                candidate,
                session_id,
                request_id,
                timestamp,
                fill_percent,
                later,
            );
            &&& candidate.first_message_hash != earlier.first_message_hash ==> snapshot is Some
                && held_against(snapshot->0, candidate, earlier)
            &&& candidate.first_message_hash == earlier.first_message_hash ==> {
                &&& snapshot is Some <==> candidate.explicit_compaction_marker
                &&& snapshot is Some ==> held_against_none(snapshot->0, candidate)
            }
        }),
{
}

/// The excerpt of the summary of a request is that of the summary that it carries, and there is
/// none where it carries none. In the full mode the raw one is whole.
pub proof fn law_carried_summary_is_shown(
    store: StoreView,
    candidate: CandidateView,
    session_id: Seq<char>,
    request_id: Seq<char>,
    timestamp: Seq<char>,
    fill_percent: Option<u32>,
    now: u128,
)
    ensures
        match store.request_snapshot(
            candidate,
            session_id,
            request_id,
            timestamp,
            fill_percent,
            now,
        ) {
            Some(snapshot) => match candidate.compact_summary_text {
                Some(text) => {
                    &&& snapshot.excerpts.compact_summary == safe_excerpt_of(text, 240)
                    &&& snapshot.excerpts.raw_compact_summary == if candidate.capture_mode
                        == PromptCaptureMode::Full {
                        raw_excerpt_of(text, text.len())
                    } else {
                        None
                    }
                },
                None => snapshot.excerpts.compact_summary is None
                    && snapshot.excerpts.raw_compact_summary is None,
            },
            None => true,
        },
{
}

// ---- Activity ----

/// A generated summary keeps its session active, as a request does; and a request keeps its
/// directory known.
pub proof fn law_calls_keep_a_session_active(
    store: StoreView,
    candidate: CandidateView,
    session_id: Seq<char>,
    taken: Option<SnapshotView>,
    snapshot: SnapshotView,
    now: u128,
    later: u128,
)
    requires
        later <= now + store.ttl,
    ensures
        store.after_summary(session_id, snapshot, now).without_expired(later).listed(session_id)
            == store.after_summary(session_id, snapshot, now).listed(session_id),
        store.after_request(candidate, session_id, taken, now).without_expired(later).listed(
            session_id,
        ) == store.after_request(candidate, session_id, taken, now).listed(session_id),
        store.after_request(candidate, session_id, taken, now).without_expired(later).observed_at(
            candidate.working_dir,
        ) is Some,
{
}

/// After the time to live a session that was touched no more is gone, with its snapshots, and so
/// is its directory.
pub proof fn law_idle_session_is_dropped(
    store: StoreView,
    candidate: CandidateView,
    session_id: Seq<char>,
    taken: Option<SnapshotView>,
    snapshot: SnapshotView,
    now: u128,
    later: u128,
)
    requires
        later > now + store.ttl,
    ensures
        ({
            let requested = store.after_request(candidate, session_id, taken, now);
            let summarized = store.after_summary(session_id, snapshot, now);
            &&& requested.expired(later).contains(session_id)
            &&& requested.without_expired(later).listed(session_id).len() == 0
            &&& requested.without_expired(later).observed_in(session_id) is None
            &&& requested.without_expired(later).observed_at(candidate.working_dir) is None
            &&& summarized.expired(later).contains(session_id)
            &&& summarized.without_expired(later).listed(session_id).len() == 0
        }),
{
}

/// Replacing a drift does not count as activity, and gives no number away.
pub proof fn law_drift_update_is_no_activity(
    store: StoreView,
    session_id: Seq<char>,
    sequence: u64,
    drift: DriftView,
    id: Seq<char>,
)
    ensures
        ({
            let after = store.after_drift_update(session_id, sequence, drift);
            &&& after.sessions.contains_key(id) <==> store.sessions.contains_key(id)
            &&& store.sessions.contains_key(id) ==> {
                &&& after.sessions[id].last_activity == store.sessions[id].last_activity
                &&& after.sessions[id].next_sequence == store.sessions[id].next_sequence
            }
            &&& after.limit == store.limit
            &&& after.ttl == store.ttl
            &&& after.assistant == store.assistant
        }),
{
    crate::store_model::lemma_place_of(store.listed(session_id), sequence, 0);
}

/// A drift is replaced in the first snapshot of its number, and there is one to replace just
/// where a snapshot of the session has the number.
pub proof fn law_drift_update_finds_its_snapshot(
    store: StoreView,
    session_id: Seq<char>,
    sequence: u64,
    drift: DriftView,
    i: int,
)
    requires
        0 <= i < store.listed(session_id).len(),
        store.listed(session_id)[i].sequence == sequence,
        forall|j: int|
            0 <= j < i ==> (#[trigger] store.listed(session_id)[j]).sequence != sequence,
    ensures
        store.after_drift_update(session_id, sequence, drift).listed(session_id)[i].drift == Some(
            drift,
        ),
        place_of(store.listed(session_id), sequence, 0) == Some(i),
{
    lemma_place_is(store.listed(session_id), sequence, 0, i);
}

proof fn lemma_place_is(all: Seq<SnapshotView>, sequence: u64, from: int, i: int)
    requires
        0 <= from <= i < all.len(),
        all[i].sequence == sequence,
        forall|j: int| from <= j < i ==> (#[trigger] all[j]).sequence != sequence,
    ensures
        place_of(all, sequence, from) == Some(i),
    decreases i - from,
{
    if from < i {
        lemma_place_is(all, sequence, from + 1, i);
    }
}

} // verus!
