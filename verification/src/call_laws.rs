//! What the calls of the store and of the other functions give, in the terms of the laws.
use vstd::prelude::*;

use crate::analyzer::{
    analyzer_named, complete_score, conclude_run, extract_json_object, json_object_in,
    plan_analysis, plan_of, read_answer, score_in, texts_in, verdict_of, AnalysisPlan, AnalyzerEnd,
    ClaudeDriftAnalyzerMode,
};
use crate::candidate::{choose_summary, summary_among, RequestSnapshotCandidate};
use crate::capture::{mode_named, PromptCaptureMode};
use crate::drift_score::{DriftScore, DriftScoreSource};
use crate::facts::{missing_facts, missing_important_facts};
use crate::keywords::{keyword_set, keywords, KeywordSet};
use crate::numeral::parsed_number;
use crate::redact::{compacted_summary_from_response, denoised, summary_text};
use crate::snapshot::CompactionSnapshot;
use crate::store::SnapshotStore;
use crate::text::{lowered, trimmed};

verus! {

// ---- The store ----

/// A recorded request gives the snapshot that the laws of requests speak of, under its own
/// session, request and time, and leaves the store as they say.
pub proof fn law_call_of_record_request(
    store: &mut SnapshotStore,
    candidate: RequestSnapshotCandidate,
    session_id: String,
    request_id: String,
    timestamp: String,
    fill_percent: Option<u32>,
    now: u128,
    taken: Option<CompactionSnapshot>,
)
    requires
        call_ensures(
            SnapshotStore::record_request,
            (store, candidate, session_id, request_id, timestamp, fill_percent, now),
            taken,
        ),
    ensures
        final(store).wf(),
        taken.deep_view() == old(store).deep_view().request_snapshot(
            candidate.deep_view(),
            session_id@,
            request_id@,
            timestamp@,
            fill_percent,
            now,
        ),
        final(store).deep_view() == old(store).deep_view().after_request(
            candidate.deep_view(),
            session_id@,
            taken.deep_view(),
            now,
        ),
        taken is Some ==> {
            &&& taken->0.session_id@ == session_id@
            &&& taken->0.request_id@ == request_id@
            &&& taken->0.timestamp@ == timestamp@
            &&& taken->0.model@ == candidate.model@
        },
        candidate.explicit_compaction_marker ==> taken is Some,
{
    if taken is Some {
        assert(taken.deep_view()->0 == taken->0.deep_view());
    }
}

/// A recorded summary gives the snapshot that the laws of summaries speak of.
pub proof fn law_call_of_record_summary(
    store: &mut SnapshotStore,
    candidate: RequestSnapshotCandidate,
    session_id: String,
    request_id: String,
    timestamp: String,
    summary: String,
    now: u128,
    taken: CompactionSnapshot,
)
    requires
        call_ensures(
            SnapshotStore::record_summary,
            (store, candidate, session_id, request_id, timestamp, summary, now),
            taken,
        ),
    ensures
        final(store).wf(),
        taken.deep_view() == old(store).deep_view().summary_snapshot(
            candidate.deep_view(),
            session_id@,
            request_id@,
            timestamp@,
            summary@,
            now,
        ),
        final(store).deep_view() == old(store).deep_view().after_summary(
            session_id@,
            taken.deep_view(),
            now,
        ),
{
}

/// A recorded response gives a snapshot just where it holds a summary, and then that of the
/// summary; otherwise the store stays as it is.
pub proof fn law_call_of_record_generated_summary(
    store: &mut SnapshotStore,
    candidate: RequestSnapshotCandidate,
    session_id: String,
    request_id: String,
    timestamp: String,
    response: &str,
    now: u128,
    taken: Option<CompactionSnapshot>,
)
    requires
        call_ensures(
            SnapshotStore::record_generated_summary,
            (store, candidate, session_id, request_id, timestamp, response, now),
            taken,
        ),
    ensures
        final(store).wf(),
        taken is Some <==> trimmed(denoised(response@)).len() > 0,
        taken is None ==> final(store).deep_view() == old(store).deep_view(),
        taken is Some ==> {
            &&& taken->0.deep_view() == old(store).deep_view().summary_snapshot(
                candidate.deep_view(),
                session_id@,
                request_id@,
                timestamp@,
                summary_text(denoised(response@))->0,
                now,
            )
            &&& final(store).deep_view() == old(store).deep_view().after_summary(
                session_id@,
                taken->0.deep_view(),
                now,
            )
        },
{
    crate::laws::law_summary_is_trimmed(denoised(response@));
    if taken is Some {
        assert(taken.deep_view()->0 == taken->0.deep_view());
    }
}

/// What is asked of the store is what it holds: the list of a session, the end of the list, and
/// the session of the last request in a directory.
pub proof fn law_calls_that_read(
    store: &SnapshotStore,
    session_id: &str,
    working_dir: &str,
    listed: Vec<CompactionSnapshot>,
    pair: Option<(Option<CompactionSnapshot>, CompactionSnapshot)>,
    known: Option<String>,
)
    requires
        call_ensures(SnapshotStore::list_session_snapshots, (store, session_id), listed),
        call_ensures(SnapshotStore::latest_pair, (store, session_id), pair),
        call_ensures(
            SnapshotStore::latest_session_id_for_working_dir,
            (store, working_dir),
            known,
        ),
    ensures
        listed.deep_view() == store.deep_view().listed(session_id@),
        match pair {
            Some((previous, latest)) => {
                &&& listed@.len() > 0
                &&& latest.deep_view() == listed@.last().deep_view()
                &&& previous is Some <==> listed@.len() >= 2
                &&& previous is Some ==> previous->0.deep_view() == listed@[listed@.len()
                    - 2].deep_view()
            },
            None => listed@.len() == 0,
        },
        known is Some <==> store.deep_view().by_working_dir.contains_key(working_dir@),
        known is Some ==> known->0@ == store.deep_view().by_working_dir[working_dir@].session_id,
{
    let all = store.deep_view().listed(session_id@);
    assert(listed.deep_view() == all);
    assert(listed@.len() == all.len());
    if let Some((previous, latest)) = pair {
        assert(pair.deep_view()->0 == (previous, latest).deep_view());
        assert(listed.deep_view()[all.len() - 1] == listed@[all.len() - 1].deep_view());
        if previous is Some {
            assert(previous.deep_view()->0 == previous->0.deep_view());
            assert(listed.deep_view()[all.len() - 2] == listed@[all.len() - 2].deep_view());
        }
    }
}

/// A replaced drift is handed back in its snapshot; where no snapshot of the session has the
/// number, nothing is, and the store stays as it is.
pub proof fn law_call_of_update_drift(
    store: &mut SnapshotStore,
    session_id: &str,
    sequence: u64,
    drift: DriftScore,
    updated: Option<CompactionSnapshot>,
)
    requires
        call_ensures(SnapshotStore::update_drift, (store, session_id, sequence, drift), updated),
    ensures
        final(store).wf(),
        updated is Some <==> exists|i: int|
            0 <= i < old(store).deep_view().listed(session_id@).len() && (
            #[trigger] old(store).deep_view().listed(session_id@)[i]).sequence == sequence,
        updated is None ==> final(store).deep_view() == old(store).deep_view(),
        updated is Some ==> {
            &&& updated->0.sequence == sequence
            &&& updated->0.deep_view().drift == Some(drift.deep_view())
            &&& final(store).deep_view() == old(store).deep_view().after_drift_update(
                session_id@,
                sequence,
                drift.deep_view(),
            )
            &&& final(store).deep_view().listed(session_id@).contains(updated->0.deep_view())
        },
{
    let all = old(store).deep_view().listed(session_id@);
    crate::store_model::lemma_place_of(all, sequence, 0);
    if updated is Some {
        assert(updated.deep_view()->0 == updated->0.deep_view());
        let at = crate::store_model::place_of(all, sequence, 0)->0;
        assert(all[at].sequence == sequence);
        assert(final(store).deep_view().listed(session_id@)[at] == updated->0.deep_view());
    }
}

/// A cleanup counts the sessions that it drops, which are those idle for longer than the time to
/// live.
pub proof fn law_call_of_cleanup_expired(store: &mut SnapshotStore, now: u128, count: usize)
    requires
        call_ensures(SnapshotStore::cleanup_expired, (store, now), count),
    ensures
        final(store).wf(),
        final(store).deep_view() == old(store).deep_view().without_expired(now),
        count == old(store).deep_view().expired(now).len(),
{
}

/// A new store is empty, keeps what it was told, and one snapshot per session at the least.
pub proof fn law_call_of_new(max: usize, ttl: u128, assistant: String, store: SnapshotStore)
    requires
        call_ensures(SnapshotStore::new, (max, ttl, assistant), store),
    ensures
        store.wf(),
        store.deep_view().limit >= 1,
        max >= 1 ==> store.deep_view().limit == max,
        max == 0 ==> store.deep_view().limit == 1,
        store.deep_view().ttl == ttl,
        store.deep_view().assistant == assistant@,
        forall|id: Seq<char>| #[trigger] store.deep_view().listed(id).len() == 0,
        forall|dir: Seq<char>| #[trigger] store.deep_view().observed_at(dir) is None,
{
}

/// The settings of a store give the limit and the seconds to live; a setting that is not made or
/// is no number gives five snapshots and an hour.
pub proof fn law_call_of_from_settings(
    limit: Option<&str>,
    ttl_secs: Option<&str>,
    assistant: String,
    store: SnapshotStore,
)
    requires
        call_ensures(SnapshotStore::from_settings, (limit, ttl_secs, assistant), store),
    ensures
        store.wf(),
        limit is None || parsed_number(limit->0@, usize::MAX as nat) is None
            ==> store.deep_view().limit == 5,
        limit is Some && parsed_number(limit->0@, usize::MAX as nat) is Some ==> {
            let given = parsed_number(limit->0@, usize::MAX as nat)->0;
            store.deep_view().limit == if given >= 1 {
                given
            } else {
                1
            }
        },
        ttl_secs is None || parsed_number(ttl_secs->0@, u64::MAX as nat) is None
            ==> store.deep_view().ttl == 3_600_000_000_000,
        ttl_secs is Some && parsed_number(ttl_secs->0@, u64::MAX as nat) is Some
            ==> store.deep_view().ttl == parsed_number(ttl_secs->0@, u64::MAX as nat)->0
            * 1_000_000_000,
        forall|id: Seq<char>| #[trigger] store.deep_view().listed(id).len() == 0,
{
}

// ---- Texts and scores ----

/// The functions on texts give what the laws speak of.
pub proof fn law_calls_on_texts(
    setting: Option<&str>,
    mode: Option<PromptCaptureMode>,
    response: &str,
    summary: Option<String>,
    texts: &Vec<String>,
    chosen: Option<String>,
    object: Option<String>,
)
    requires
        call_ensures(PromptCaptureMode::from_env_value, (setting,), mode),
        call_ensures(compacted_summary_from_response, (response,), summary),
        call_ensures(choose_summary, (texts,), chosen),
        call_ensures(extract_json_object, (response,), object),
    ensures
        setting is None ==> mode is None,
        setting is Some ==> mode == mode_named(setting->0@),
        summary.deep_view() == summary_text(denoised(response@)),
        chosen.deep_view() == summary_among(texts.deep_view()),
        object.deep_view() == json_object_in(response@),
{
}

/// The functions on keywords give what the laws speak of.
pub proof fn law_calls_on_keywords(
    assistant: &str,
    initial: &str,
    previous: &str,
    latest: &str,
    set: KeywordSet,
    facts: Vec<String>,
)
    requires
        call_ensures(keyword_set, (assistant, initial), set),
        call_ensures(missing_important_facts, (assistant, initial, previous, latest), facts),
    ensures
        set@ == keywords(assistant@, initial@),
        facts.deep_view() == missing_facts(assistant@, initial@, previous@, latest@),
{
}

// ---- The analyzer ----

/// The settings choose an analyzer by its name, whatever its letter case and the white space
/// around it: a mock answers what is set; a command is the one that is set, or that of the
/// assistant's name, with two minutes; any other name gives none.
pub proof fn law_call_of_the_analyzer_settings(
    assistant: &str,
    analyzer: Option<&str>,
    response: Option<&str>,
    command: Option<&str>,
    context: Option<&str>,
    mode: ClaudeDriftAnalyzerMode,
)
    requires
        call_ensures(
            ClaudeDriftAnalyzerMode::from_settings,
            (assistant, analyzer, response, command, context),
            mode,
        ),
    ensures
        analyzer is None ==> mode is Disabled,
        mode is Mock ==> analyzer is Some && lowered(trimmed(analyzer->0@)) == "mock"@,
        mode is Mock && response is Some ==> mode->response@ == response->0@,
        mode is Mock && response is None ==> mode->response@.len() == 0,
        mode is Claude ==> {
            let name = lowered(trimmed(analyzer->0@));
            &&& analyzer is Some
            &&& name == "1"@ || name == "true"@ || name == lowered(assistant@)
            &&& mode->timeout_secs == 120
            &&& command is Some ==> mode->command@ == command->0@
            &&& command is None ==> mode->command@ == lowered(assistant@)
            &&& mode->source == DriftScoreSource::ClaudeAssistedFull <==> context is Some
                && lowered(trimmed(context->0@)) == "full"@
            &&& mode->source != DriftScoreSource::Deterministic
        },
{
    reveal_strlit("");
    reveal_strlit("full");
    let nothing = Seq::<char>::empty();
    crate::laws::law_trimming_shortens(nothing);
    assert(lowered(trimmed(nothing)) =~= nothing);
    assert(nothing =~= ""@);
    assert(mode.deep_view() == analyzer_named(
        assistant@,
        analyzer.deep_view(),
        response.deep_view(),
        command.deep_view(),
        context.deep_view(),
    ));
}

/// The plan follows the choice: nothing without an analyzer, the answer of a mock as it is, and
/// the run of a command.
pub proof fn law_call_of_plan_analysis(mode: ClaudeDriftAnalyzerMode, plan: AnalysisPlan)
    requires
        call_ensures(plan_analysis, (mode,), plan),
    ensures
        mode is Disabled ==> plan is Refuse && plan->reason@ == "drift analyzer disabled"@,
        mode is Mock ==> plan is Read && plan->response@ == mode->response@ && plan->Read_source
            == DriftScoreSource::ClaudeAssistedRedacted,
        mode is Claude ==> plan is Run && plan->command@ == mode->command@ && plan->Run_source
            == mode->source && plan->timeout_secs == mode->timeout_secs,
{
    assert(plan.deep_view() == plan_of(mode.deep_view()));
}

/// An analyzer that succeeded answers what it printed, without the white space around it; one
/// that printed nothing, failed or never came to an end gives no answer. What it printed as an
/// error is told where it failed, and only there.
pub proof fn law_call_of_read_answer(
    assistant: &str,
    success: bool,
    status: &str,
    stdout: &str,
    stderr: &str,
    answer: Result<String, String>,
    end: AnalyzerEnd,
    conclusion: Result<String, String>,
)
    requires
        call_ensures(read_answer, (assistant, success, status, stdout, stderr), answer),
        call_ensures(conclude_run, (assistant, end), conclusion),
    ensures
        answer is Ok <==> success && trimmed(stdout@).len() > 0,
        answer is Ok ==> answer->Ok_0@ == trimmed(stdout@),
        success && answer is Err ==> answer->Err_0@ == lowered(assistant@)
            + " drift analyzer returned empty output"@,
        !success && trimmed(stderr@).len() == 0 ==> answer->Err_0@ == lowered(assistant@)
            + " drift analyzer exited with "@ + status@,
        !success && trimmed(stderr@).len() > 0 ==> answer->Err_0@ == lowered(assistant@)
            + " drift analyzer exited with "@ + status@ + ": "@ + trimmed(stderr@),
        !(end is Exited) ==> conclusion is Err,
        end is TimedOut ==> conclusion->Err_0@ == "drift analysis timed out"@,
        conclusion is Ok ==> end->success,
{
    let told = texts_in(answer);
    let concluded = texts_in(conclusion);
}

/// A score that was read is completed as the laws of answers say.
pub proof fn law_call_of_complete_score(
    assistant: &str,
    parsed: Result<DriftScore, String>,
    fallback_source: DriftScoreSource,
    result: Result<DriftScore, String>,
)
    requires
        call_ensures(complete_score, (assistant, parsed, fallback_source), result),
    ensures
        score_in(result) == verdict_of(assistant@, score_in(parsed), fallback_source),
        result is Ok <==> parsed is Ok,
{
    let before = score_in(parsed);
    let after = score_in(result);
}

} // verus!
