//! What holds of the store over more than one operation.
use vstd::prelude::*;

use crate::candidate::CandidateView;
use crate::capture::PromptCaptureMode;
use crate::detection::observation_of;
use crate::drift_score::DriftView;
use crate::laws::law_growing_conversation_is_no_compaction;
use crate::record::full_warning;
use crate::snapshot::SnapshotView;
use crate::store_model::{comes_before, place_of, snapshot_inv, SessionView, StoreView};
use crate::store_model::{
    lemma_cleanup_inv, lemma_drift_update_inv, lemma_place_of, lemma_request_inv,
    lemma_summary_inv, lemma_tail_grows,
};

verus! {

// ---- Retention ----

/// The list of a session after one more snapshot: the snapshot is the last, and the others are
/// the latest of those before, in their order. No more than the limit are there.
pub open spec fn is_list_with(
    after: Seq<SnapshotView>,
    before: Seq<SnapshotView>,
    snapshot: SnapshotView,
    limit: nat,
) -> bool {
    &&& 1 <= after.len() <= limit
    &&& after.last() == snapshot
    &&& after.drop_last().is_suffix_of(before)
    &&& before.len() < limit ==> after.drop_last() == before
    &&& before.len() >= limit ==> after.len() == limit
}

/// A request that gives a snapshot adds it to the list of its session, and one that gives none
/// leaves the list as it is. The lists of the other sessions stay as they are.
pub proof fn law_request_retention(
    store: StoreView,
    candidate: CandidateView,
    session_id: Seq<char>,
    request_id: Seq<char>,
    timestamp: Seq<char>,
    fill_percent: Option<u32>,
    now: u128,
)
    requires
        store.inv(),
    ensures
        ({
            let snapshot = store.request_snapshot(
                candidate,
                session_id,
                request_id,
                timestamp,
                fill_percent,
                now,
            );
            let after = store.after_request(candidate, session_id, snapshot, now);
            &&& after.limit == store.limit && after.ttl == store.ttl
            &&& match snapshot {
                Some(taken) => is_list_with(
                    after.listed(session_id),
                    store.listed(session_id),
                    taken,
                    store.limit,
                ),
                None => after.listed(session_id) == store.listed(session_id),
            }
            &&& forall|id: Seq<char>|
                id != session_id ==> #[trigger] after.listed(id) == store.listed(id)
        }),
{
    let snapshot = store.request_snapshot(
        candidate,
        session_id,
        request_id,
        timestamp,
        fill_percent,
        now,
    );
    let after = store.after_request(candidate, session_id, snapshot, now);
    let before = store.listed(session_id);
    assert(before == store.touched_session(session_id, now).snapshots);
    if store.sessions.contains_key(session_id) {
        assert(store.sessions[session_id].inv(session_id, store.limit));
    }
    if let Some(taken) = snapshot {
        lemma_list_with(after.listed(session_id), before, taken, store.limit);
    }
}

/// A generated summary adds its snapshot to the list of its session. The lists of the other
/// sessions stay as they are.
pub proof fn law_summary_retention(
    store: StoreView,
    candidate: CandidateView,
    session_id: Seq<char>,
    request_id: Seq<char>,
    timestamp: Seq<char>,
    summary: Seq<char>,
    now: u128,
)
    requires
        store.inv(),
    ensures
        ({
            let snapshot = store.summary_snapshot(
                candidate,
                session_id,
                request_id,
                timestamp,
                summary,
                now,
            );
            let after = store.after_summary(session_id, snapshot, now);
            &&& after.limit == store.limit && after.ttl == store.ttl
            &&& is_list_with(
                after.listed(session_id),
                store.listed(session_id),
                snapshot,
                store.limit,
            )
            &&& after.by_working_dir == store.by_working_dir
            &&& forall|id: Seq<char>|
                id != session_id ==> #[trigger] after.listed(id) == store.listed(id)
        }),
{
    let snapshot = store.summary_snapshot(
        candidate,
        session_id,
        request_id,
        timestamp,
        summary,
        now,
    );
    let after = store.after_summary(session_id, snapshot, now);
    let before = store.listed(session_id);
    assert(before == store.touched_session(session_id, now).snapshots);
    if store.sessions.contains_key(session_id) {
        assert(store.sessions[session_id].inv(session_id, store.limit));
    }
    lemma_list_with(after.listed(session_id), before, snapshot, store.limit);
}

proof fn lemma_list_with(
    after: Seq<SnapshotView>,
    before: Seq<SnapshotView>,
    snapshot: SnapshotView,
    limit: nat,
)
    requires
        before.len() <= limit,
        limit >= 1,
        after == if before.len() >= limit && before.len() > 0 {
            before.drop_first().push(snapshot)
        } else {
            before.push(snapshot)
        },
    ensures
        is_list_with(after, before, snapshot, limit),
{
    if before.len() >= limit && before.len() > 0 {
        assert(after.drop_last() =~= before.drop_first());
        assert(before.drop_first() =~= before.subrange(
            before.len() - before.drop_first().len(),
            before.len() as int,
        ));
    } else {
        assert(after.drop_last() =~= before);
        assert(before =~= before.subrange(0, before.len() as int));
    }
}

/// No session ever holds more snapshots than the limit, their numbers rise from the oldest to
/// the latest, and the next snapshot gets a number above them all. Only at the end of the
/// numbers do they repeat.
pub proof fn law_numbers_rise(store: StoreView, session_id: Seq<char>, now: u128)
    requires
        store.inv(),
    ensures
        store.listed(session_id).len() <= store.limit,
        forall|i: int, j: int|
            #![trigger store.listed(session_id)[i], store.listed(session_id)[j]]
            0 <= i < j < store.listed(session_id).len() ==> comes_before(
                store.listed(session_id)[i].sequence,
                store.listed(session_id)[j].sequence,
            ),
        forall|i: int|
            0 <= i < store.listed(session_id).len() ==> comes_before(
                (#[trigger] store.listed(session_id)[i]).sequence,
                store.touched_session(session_id, now).sequence(),
            ),
{
    if store.sessions.contains_key(session_id) {
        assert(store.sessions[session_id].inv(session_id, store.limit));
    }
}

/// The snapshots of a session are the latest of all that were ever taken in it, numbered from 1
/// on without a gap, as many as the limit allows. At the end of the numbers they repeat, and
/// nothing is said.
pub proof fn law_numbers_have_no_gap(store: StoreView, session_id: Seq<char>)
    requires
        store.inv(),
        store.sessions.contains_key(session_id),
        store.sessions[session_id].next_sequence < u64::MAX,
    ensures
        store.sessions[session_id].is_tail_of(
            (store.sessions[session_id].next_sequence - 1) as nat,
            store.limit,
        ),
        forall|i: int|
            0 <= i < store.listed(session_id).len() ==> (#[trigger] store.listed(
                session_id,
            )[i]).sequence + (store.listed(session_id).len() - i)
                == store.sessions[session_id].next_sequence,
{
    let session = store.sessions[session_id];
    assert(session.inv(session_id, store.limit));
    assert(store.listed(session_id) == session.snapshots);
}

/// A call that changes the store.
pub enum Step {
    Request {
        candidate: CandidateView,
        session_id: Seq<char>,
        request_id: Seq<char>,
        timestamp: Seq<char>,
        fill_percent: Option<u32>,
        now: u128,
    },
    Summary {
        candidate: CandidateView,
        session_id: Seq<char>,
        request_id: Seq<char>,
        timestamp: Seq<char>,
        summary: Seq<char>,
        now: u128,
    },
    DriftUpdate { session_id: Seq<char>, sequence: u64, drift: DriftView },
}

impl Step {
    /// The snapshot that the call takes, with the session that it belongs to.
    pub open spec fn taken(self, store: StoreView) -> Option<(Seq<char>, SnapshotView)> {
        match self {
            Step::Request { candidate, session_id, request_id, timestamp, fill_percent, now } => {
                match store.request_snapshot(
                    candidate,
                    session_id,
                    request_id,
                    timestamp,
                    fill_percent,
                    now,
                ) {
                    Some(snapshot) => Some((session_id, snapshot)),
                    None => None,
                }
            },
            Step::Summary { candidate, session_id, request_id, timestamp, summary, now } => Some(
                (
                    session_id,
                    store.summary_snapshot(
                        candidate,
                        session_id,
                        request_id,
                        timestamp,
                        summary,
                        now,
                    ),
                ),
            ),
            Step::DriftUpdate { .. } => None,
        }
    }

    /// The call takes a snapshot in the session.
    pub open spec fn takes_in(self, store: StoreView, session_id: Seq<char>) -> bool {
        self.taken(store) matches Some(found) && found.0 == session_id
    }

    /// The store after the call.
    pub open spec fn after(self, store: StoreView) -> StoreView {
        match self {
            Step::Request { candidate, session_id, request_id, timestamp, fill_percent, now } => {
                store.after_request(
                    candidate,
                    session_id,
                    store.request_snapshot(
                        candidate,
                        session_id,
                        request_id,
                        timestamp,
                        fill_percent,
                        now,
                    ),
                    now,
                )
            },
            Step::Summary { candidate, session_id, request_id, timestamp, summary, now } => {
                store.after_summary(
                    session_id,
                    store.summary_snapshot(
                        candidate,
                        session_id,
                        request_id,
                        timestamp,
                        summary,
                        now,
                    ),
                    now,
                )
            },
            Step::DriftUpdate { session_id, sequence, drift } => store.after_drift_update(
                session_id,
                sequence,
                drift,
            ),
        }
    }
}

/// The store after the given calls.
pub open spec fn after_steps(store: StoreView, steps: Seq<Step>) -> StoreView
    decreases steps.len(),
{
    if steps.len() == 0 {
        store
    } else {
        steps.last().after(after_steps(store, steps.drop_last()))
    }
}

/// The number of snapshots that the given calls take in a session.
pub open spec fn taken_count(store: StoreView, steps: Seq<Step>, session_id: Seq<char>) -> nat
    decreases steps.len(),
{
    if steps.len() == 0 {
        0
    } else {
        taken_count(store, steps.drop_last(), session_id) + if steps.last().takes_in(
            after_steps(store, steps.drop_last()),
            session_id,
        ) {
            1nat
        } else {
            0nat
        }
    }
}

/// Whatever requests and summaries were recorded in a new store, and whatever drifts were
/// replaced, a session in which `k` snapshots were taken holds the last of them, as many as the
/// limit allows, with the last of the numbers `1..=k` in rising order and without a gap. The
/// latest bears the number `k`.
pub proof fn law_history_is_numbered(store: StoreView, steps: Seq<Step>, session_id: Seq<char>)
    requires
        store.limit >= 1,
        store.sessions == Map::<Seq<char>, SessionView>::empty(),
        taken_count(store, steps, session_id) <= u64::MAX,
    ensures
        ({
            let listed = after_steps(store, steps).listed(session_id);
            let k = taken_count(store, steps, session_id);
            &&& listed.len() == if k <= store.limit {
                k
            } else {
                store.limit
            }
            &&& forall|i: int|
                0 <= i < listed.len() ==> (#[trigger] listed[i]).sequence == k - listed.len() + 1
                    + i
            &&& k > 0 ==> listed.last().sequence == k
        }),
{
    lemma_history(store, steps, session_id);
    let session = after_steps(store, steps).touched_session(session_id, 0);
    assert(after_steps(store, steps).listed(session_id) == session.snapshots);
}

/// The number that the next snapshot gets after `count` of them.
spec fn number_after(count: nat) -> u64 {
    if count < u64::MAX {
        (count + 1) as u64
    } else {
        u64::MAX
    }
}

proof fn lemma_history(store: StoreView, steps: Seq<Step>, session_id: Seq<char>)
    requires
        store.limit >= 1,
        store.sessions == Map::<Seq<char>, SessionView>::empty(),
        taken_count(store, steps, session_id) <= u64::MAX,
    ensures
        ({
            let after = after_steps(store, steps);
            let k = taken_count(store, steps, session_id);
            let session = after.touched_session(session_id, 0);
            &&& after.limit == store.limit
            &&& session.is_tail_of(k, store.limit)
            &&& session.next_sequence == number_after(k)
        }),
    decreases steps.len(),
{
    if steps.len() > 0 {
        let before = after_steps(store, steps.drop_last());
        let k = taken_count(store, steps.drop_last(), session_id);
        lemma_history(store, steps.drop_last(), session_id);
        let step = steps.last();
        let old_session = before.touched_session(session_id, 0);
        let new_session = after_steps(store, steps).touched_session(session_id, 0);
        match step.taken(before) {
            Some((id, snapshot)) => {
                if id == session_id {
                    assert(snapshot.sequence == old_session.sequence());
                    lemma_tail_grows(old_session, snapshot, k, store.limit);
                    assert(new_session.snapshots == old_session.with_snapshot(
                        snapshot,
                        store.limit,
                    ).snapshots);
                }
            },
            None => {
                if let Step::DriftUpdate { session_id: id, sequence, drift } = step {
                    lemma_place_of(before.listed(id), sequence, 0);
                    if id == session_id {
                        assert forall|i: int| 0 <= i < new_session.snapshots.len() implies (
                        #[trigger] new_session.snapshots[i]).sequence
                            == old_session.snapshots[i].sequence by {}
                    }
                }
            },
        }
    }
}

/// The latest pair is the end of the list, and there is one as soon as the list is not empty.
pub proof fn law_pair_is_end_of_list(store: StoreView, session_id: Seq<char>)
    ensures
        match store.pair(session_id) {
            None => store.listed(session_id).len() == 0,
            Some((None, latest)) => store.listed(session_id) == seq![latest],
            Some((Some(previous), latest)) => {
                &&& store.listed(session_id).len() >= 2
                &&& store.listed(session_id).skip(store.listed(session_id).len() - 2) == seq![
                    previous,
                    latest,
                ]
            },
        },
{
    let all = store.listed(session_id);
    if all.len() == 1 {
        assert(all =~= seq![all[0]]);
    } else if all.len() >= 2 {
        assert(all.skip(all.len() - 2) =~= seq![all[all.len() - 2], all.last()]);
    }
}

// ---- What is remembered ----

/// After a request, its session is the latest one of its working directory, and the request is
/// the one that the next in the session is held against. What is known of other sessions and
/// other directories stays as it is.
pub proof fn law_request_is_remembered(
    store: StoreView,
    candidate: CandidateView,
    session_id: Seq<char>,
    snapshot: Option<SnapshotView>,
    now: u128,
)
    ensures
        ({
            let after = store.after_request(candidate, session_id, snapshot, now);
            let observation = observation_of(candidate, session_id, now);
            &&& after.observed_at(candidate.working_dir) == Some(observation)
            &&& observation.session_id == session_id
            &&& forall|next: CandidateView|
                #[trigger] after.before_request(next, session_id) == Some(observation)
            &&& forall|id: Seq<char>|
                id != session_id ==> #[trigger] after.observed_in(id) == store.observed_in(id)
            &&& forall|dir: Seq<char>|
                dir != candidate.working_dir ==> #[trigger] after.observed_at(dir)
                    == store.observed_at(dir)
        }),
{
}

/// A conversation that only grows gives no further snapshot: where the next request of a session
/// bears no mark, begins as the one before it, has the same system prompt and no fewer messages
/// and tokens, none is taken. So a summary that is carried along from request to request gives
/// one snapshot. Counts at the end of the machine's numbers are left out.
pub proof fn law_growing_conversation_gives_no_snapshot(
    store: StoreView,
    candidate: CandidateView,
    session_id: Seq<char>,
    snapshot: Option<SnapshotView>,
    now: u128,
    next: CandidateView,
    request_id: Seq<char>,
    timestamp: Seq<char>,
    fill_percent: Option<u32>,
    later: u128,
)
    requires
        !next.explicit_compaction_marker,
        next.first_message_hash == candidate.first_message_hash,
        next.system_prompt_length == candidate.system_prompt_length,
        next.message_count >= candidate.message_count,
        next.estimated_input_tokens >= candidate.estimated_input_tokens,
        candidate.message_count < usize::MAX,
        60 * candidate.estimated_input_tokens < usize::MAX,
    ensures
        store.after_request(candidate, session_id, snapshot, now).request_snapshot(
            next,
            session_id,
            request_id,
            timestamp,
            fill_percent,
            later,
        ) is None,
{
    law_request_is_remembered(store, candidate, session_id, snapshot, now);
    law_growing_conversation_is_no_compaction(
        next,
        observation_of(candidate, session_id, now),
        fill_percent,
    );
}

/// A generated summary leaves what is remembered of requests as it is.
pub proof fn law_summary_leaves_observations(
    store: StoreView,
    session_id: Seq<char>,
    snapshot: SnapshotView,
    now: u128,
)
    ensures
        forall|id: Seq<char>|
            #[trigger] store.after_summary(session_id, snapshot, now).observed_in(id)
                == store.observed_in(id),
        forall|dir: Seq<char>|
            #[trigger] store.after_summary(session_id, snapshot, now).observed_at(dir)
                == store.observed_at(dir),
{
}

// ---- Drift ----

/// A drift that was replaced is read back, and nothing else has changed. Where the snapshot is
/// not there, nothing has changed at all.
pub proof fn law_drift_update_is_read_back(
    store: StoreView,
    session_id: Seq<char>,
    sequence: u64,
    drift: DriftView,
)
    ensures
        ({
            let after = store.after_drift_update(session_id, sequence, drift);
            let before = store.listed(session_id);
            &&& match place_of(before, sequence, 0) {
                Some(i) => {
                    &&& 0 <= i < before.len() && before[i].sequence == sequence
                    &&& after.listed(session_id) == before.update(
                        i,
                        SnapshotView { drift: Some(drift), ..before[i] },
                    )
                },
                None => after == store,
            }
            &&& forall|id: Seq<char>|
                id != session_id ==> #[trigger] after.listed(id) == store.listed(id)
            &&& forall|id: Seq<char>| #[trigger] after.observed_in(id) == store.observed_in(id)
            &&& after.by_working_dir == store.by_working_dir
        }),
{
    lemma_place_of(store.listed(session_id), sequence, 0);
}

/// Of two replacements of one drift the later holds.
pub proof fn law_last_drift_update_wins(
    store: StoreView,
    session_id: Seq<char>,
    sequence: u64,
    one: DriftView,
    two: DriftView,
)
    ensures
        store.after_drift_update(session_id, sequence, one).after_drift_update(
            session_id,
            sequence,
            two,
        ) == store.after_drift_update(session_id, sequence, two),
{
    let all = store.listed(session_id);
    lemma_place_of(all, sequence, 0);
    if let Some(at) = place_of(all, sequence, 0) {
        let first = store.after_drift_update(session_id, sequence, one);
        let changed = first.listed(session_id);
        lemma_same_place(all, changed, sequence, 0);
        let twice = first.after_drift_update(session_id, sequence, two);
        let once = store.after_drift_update(session_id, sequence, two);
        assert(twice.listed(session_id) =~= once.listed(session_id));
        assert(twice.sessions =~= once.sessions);
    }
}

/// The place of a number depends on the numbers alone.
proof fn lemma_same_place(
    one: Seq<SnapshotView>,
    two: Seq<SnapshotView>,
    sequence: u64,
    i: int,
)
    requires
        one.len() == two.len(),
        forall|j: int|
            #![trigger one[j]]
            0 <= j < one.len() ==> one[j].sequence == two[j].sequence,
    ensures
        place_of(one, sequence, i) == place_of(two, sequence, i),
    decreases one.len() - i,
{
    if 0 <= i < one.len() && one[i].sequence != sequence {
        lemma_same_place(one, two, sequence, i + 1);
    }
}

// ---- Expiry ----

/// What is dropped is just what was idle for longer than the time to live; the rest stays as it
/// is.
pub proof fn law_cleanup_drops_what_expired(store: StoreView, now: u128)
    ensures
        ({
            let after = store.without_expired(now);
            &&& forall|id: Seq<char>| #[trigger]
                after.sessions.contains_key(id) <==> store.sessions.contains_key(id)
                    && store.sessions[id].last_activity + store.ttl >= now
            &&& forall|id: Seq<char>| #[trigger]
                after.sessions.contains_key(id) ==> after.sessions[id] == store.sessions[id]
            &&& forall|dir: Seq<char>| #[trigger]
                after.by_working_dir.contains_key(dir) <==> store.by_working_dir.contains_key(dir)
                    && store.by_working_dir[dir].observed_at + store.ttl >= now
            &&& forall|dir: Seq<char>| #[trigger]
                after.by_working_dir.contains_key(dir) ==> after.by_working_dir[dir]
                    == store.by_working_dir[dir]
            &&& forall|id: Seq<char>| #[trigger]
                store.expired(now).contains(id) <==> store.sessions.contains_key(id)
                    && store.sessions[id].last_activity + store.ttl < now
        }),
{
}

/// A second cleanup at the same time finds nothing to drop.
pub proof fn law_cleanup_settles(store: StoreView, now: u128)
    requires
        store.inv(),
    ensures
        store.without_expired(now).expired(now).len() == 0,
        store.without_expired(now).without_expired(now) == store.without_expired(now),
{
    let once = store.without_expired(now);
    assert(once.expired(now) =~= Set::<Seq<char>>::empty());
    let twice = once.without_expired(now);
    assert(twice.sessions =~= once.sessions);
    assert(twice.by_working_dir =~= once.by_working_dir);
}

/// A session that was active no longer ago than the time to live keeps its snapshots.
pub proof fn law_active_session_stays(
    store: StoreView,
    candidate: CandidateView,
    session_id: Seq<char>,
    snapshot: Option<SnapshotView>,
    now: u128,
    later: u128,
)
    requires
        later <= now + store.ttl,
    ensures
        ({
            let after = store.after_request(candidate, session_id, snapshot, now);
            after.without_expired(later).listed(session_id) == after.listed(session_id)
        }),
{
}

// ---- Capture ----

/// In the safe mode a snapshot holds no raw text and no warning. In the full mode it holds the
/// warning. Every snapshot is marked as local, and its drift is scored.
pub proof fn law_capture_mode_rules(
    store: StoreView,
    candidate: CandidateView,
    session_id: Seq<char>,
    request_id: Seq<char>,
    timestamp: Seq<char>,
    fill_percent: Option<u32>,
    summary: Seq<char>,
    now: u128,
)
    requires
        store.inv(),
    ensures
        match store.request_snapshot(
            candidate,
            session_id,
            request_id,
            timestamp,
            fill_percent,
            now,
        ) {
            Some(taken) => taken.capture_mode == candidate.capture_mode && snapshot_inv(
                taken,
                session_id,
            ),
            None => true,
        },
        ({
            let taken = store.summary_snapshot(
                candidate,
                session_id,
                request_id,
                timestamp,
                summary,
                now,
            );
            taken.capture_mode == candidate.capture_mode && snapshot_inv(taken, session_id)
        }),
{
    if store.sessions.contains_key(session_id) {
        assert(store.sessions[session_id].inv(session_id, store.limit));
    }
}

/// No list of a store ever shows raw text of a request that was captured in the safe mode, and
/// none shows a full capture without the warning.
pub proof fn law_listed_snapshots_are_safe(store: StoreView, session_id: Seq<char>, i: int)
    requires
        store.inv(),
        0 <= i < store.listed(session_id).len(),
    ensures
        ({
            let shown = store.listed(session_id)[i];
            &&& shown.session_id == session_id
            &&& shown.local_only
            &&& shown.capture_mode == PromptCaptureMode::Safe ==> {
                &&& shown.full_capture_warning is None
                &&& shown.excerpts.raw_initial_objective is None
                &&& shown.excerpts.raw_compacted_objective is None
                &&& shown.excerpts.raw_compact_summary is None
            }
            &&& shown.capture_mode == PromptCaptureMode::Full ==> shown.full_capture_warning
                == Some(full_warning())
        }),
{
    assert(store.sessions[session_id].inv(session_id, store.limit));
    assert(snapshot_inv(store.sessions[session_id].snapshots[i], session_id));
}

/// Every operation keeps what holds of a store.
pub proof fn law_operations_keep_the_invariant(
    store: StoreView,
    candidate: CandidateView,
    session_id: Seq<char>,
    request_id: Seq<char>,
    timestamp: Seq<char>,
    fill_percent: Option<u32>,
    summary: Seq<char>,
    sequence: u64,
    drift: DriftView,
    now: u128,
)
    requires
        store.inv(),
    ensures
        store.after_request(
            candidate,
            session_id,
            store.request_snapshot(candidate, session_id, request_id, timestamp, fill_percent, now),
            now,
        ).inv(),
        store.after_summary(
            session_id,
            store.summary_snapshot(candidate, session_id, request_id, timestamp, summary, now),
            now,
        ).inv(),
        store.after_drift_update(session_id, sequence, drift).inv(),
        store.without_expired(now).inv(),
{
    lemma_request_inv(store, candidate, session_id, request_id, timestamp, fill_percent, now);
    lemma_summary_inv(store, candidate, session_id, request_id, timestamp, summary, now);
    lemma_drift_update_inv(store, session_id, sequence, drift);
    lemma_cleanup_inv(store, now);
}

} // verus!
