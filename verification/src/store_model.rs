//! The model of the store of snapshots, and what each operation makes of it.
use vstd::prelude::*;

use crate::candidate::CandidateView;
use crate::capture::PromptCaptureMode;
use crate::detection::{detection_of, observation_of, ObservationView};
use crate::drift_score::DriftView;
use crate::record::{full_warning, snapshot_of, summary_detection, with_summary, OccasionView};
use crate::snapshot::SnapshotView;

verus! {

/// The model of a session.
pub struct SessionView {
    pub snapshots: Seq<SnapshotView>,
    pub last_observation: Option<ObservationView>,
    pub next_sequence: u64,
    pub last_activity: u128,
}

/// The model of the store.
pub struct StoreView {
    /// The name of the assistant that conversations are with.
    pub assistant: Seq<char>,
    pub limit: nat,
    pub ttl: u128,
    pub sessions: Map<Seq<char>, SessionView>,
    pub by_working_dir: Map<Seq<char>, ObservationView>,
}

// ---- Sessions ----

impl SessionView {
    /// A session in which nothing has happened yet.
    pub open spec fn fresh(now: u128) -> SessionView {
        SessionView {
            snapshots: Seq::empty(),
            last_observation: None,
            next_sequence: 1,
            last_activity: now,
        }
    }

    /// The number of the next snapshot.
    pub open spec fn sequence(self) -> u64 {
        if self.next_sequence >= 1 {
            self.next_sequence
        } else {
            1
        }
    }

    /// The latest snapshot.
    pub open spec fn latest(self) -> Option<SnapshotView> {
        if self.snapshots.len() == 0 {
            None
        } else {
            Some(self.snapshots.last())
        }
    }

    /// The session with one more snapshot. The oldest goes where the session is full.
    pub open spec fn with_snapshot(self, snapshot: SnapshotView, limit: nat) -> SessionView {
        let kept = if self.snapshots.len() >= limit && self.snapshots.len() > 0 {
            self.snapshots.drop_first()
        } else {
            self.snapshots
        };
        SessionView {
            snapshots: kept.push(snapshot),
            next_sequence: if self.sequence() < u64::MAX {
                (self.sequence() + 1) as u64
            } else {
                u64::MAX
            },
            ..self
        }
    }

    /// The session holds the latest of the given number of snapshots, as many as the limit
    /// allows, numbered from 1 on without a gap.
    pub open spec fn is_tail_of(self, count: nat, limit: nat) -> bool {
        &&& self.snapshots.len() == if count <= limit {
            count
        } else {
            limit
        }
        &&& forall|i: int|
            0 <= i < self.snapshots.len() ==> (#[trigger] self.snapshots[i]).sequence == count
                - self.snapshots.len() + 1 + i
    }

    /// What holds of every session that a store keeps.
    pub open spec fn inv(self, id: Seq<char>, limit: nat) -> bool {
        &&& self.snapshots.len() <= limit
        &&& self.next_sequence >= 1
        &&& self.next_sequence < u64::MAX ==> self.is_tail_of(
            (self.next_sequence - 1) as nat,
            limit,
        )
        &&& forall|i: int|
            0 <= i < self.snapshots.len() ==> snapshot_inv(#[trigger] self.snapshots[i], id)
        &&& forall|i: int|
            0 <= i < self.snapshots.len() ==> comes_before(
                (#[trigger] self.snapshots[i]).sequence,
                self.next_sequence,
            )
        &&& forall|i: int, j: int|
            #![trigger self.snapshots[i], self.snapshots[j]]
            0 <= i < j < self.snapshots.len() ==> comes_before(
                self.snapshots[i].sequence,
                self.snapshots[j].sequence,
            )
        &&& match self.last_observation {
            Some(observation) => observation.session_id == id,
            None => true,
        }
    }
}

/// One number of a snapshot comes before another. At the end of the numbers they repeat.
pub open spec fn comes_before(one: u64, two: u64) -> bool {
    one < two || two == u64::MAX
}

/// What holds of every snapshot that a store keeps. Raw text is there in the full mode only,
/// and with a warning.
pub open spec fn snapshot_inv(snapshot: SnapshotView, session_id: Seq<char>) -> bool {
    &&& snapshot.session_id == session_id
    &&& snapshot.sequence >= 1
    &&& snapshot.local_only
    &&& snapshot.drift is Some
    &&& snapshot.capture_mode == PromptCaptureMode::Safe ==> {
        &&& snapshot.full_capture_warning is None
        &&& snapshot.excerpts.raw_initial_objective is None
        &&& snapshot.excerpts.raw_compacted_objective is None
        &&& snapshot.excerpts.raw_compact_summary is None
    }
    &&& snapshot.capture_mode == PromptCaptureMode::Full ==> snapshot.full_capture_warning == Some(
        full_warning(),
    )
}

// ---- Transitions of the store ----

impl StoreView {
    /// What holds of every store.
    pub open spec fn inv(self) -> bool {
        &&& self.limit >= 1
        &&& self.sessions.dom().finite()
        &&& forall|id: Seq<char>| #[trigger]
            self.sessions.contains_key(id) ==> self.sessions[id].inv(id, self.limit)
        &&& forall|dir: Seq<char>| #[trigger]
            self.by_working_dir.contains_key(dir) ==> self.by_working_dir[dir].working_dir == dir
    }

    /// The last observation in a session.
    pub open spec fn observed_in(self, session_id: Seq<char>) -> Option<ObservationView> {
        if self.sessions.contains_key(session_id) {
            self.sessions[session_id].last_observation
        } else {
            None
        }
    }

    /// The last observation in a working directory.
    pub open spec fn observed_at(self, working_dir: Seq<char>) -> Option<ObservationView> {
        if self.by_working_dir.contains_key(working_dir) {
            Some(self.by_working_dir[working_dir])
        } else {
            None
        }
    }

    /// The observation that a request is held against: the last one in its session, or else the
    /// last one in its working directory, where the conversation began otherwise.
    pub open spec fn before_request(
        self,
        candidate: CandidateView,
        session_id: Seq<char>,
    ) -> Option<
        ObservationView,
    > {
        match self.observed_in(session_id) {
            Some(observation) => Some(observation),
            None => match self.observed_at(candidate.working_dir) {
                Some(observation) => if observation.first_message_hash
                    != candidate.first_message_hash {
                    Some(observation)
                } else {
                    None
                },
                None => None,
            },
        }
    }

    /// The observation that a generated summary is held against: the last one in its session, or
    /// else the last one in its working directory.
    pub open spec fn before_summary(
        self,
        candidate: CandidateView,
        session_id: Seq<char>,
    ) -> Option<
        ObservationView,
    > {
        match self.observed_in(session_id) {
            Some(observation) => Some(observation),
            None => self.observed_at(candidate.working_dir),
        }
    }

    /// The session, active now; a fresh one where there is none.
    pub open spec fn touched_session(self, session_id: Seq<char>, now: u128) -> SessionView {
        if self.sessions.contains_key(session_id) {
            SessionView { last_activity: now, ..self.sessions[session_id] }
        } else {
            SessionView::fresh(now)
        }
    }

    /// What is detected of a compaction when a request is recorded.
    pub open spec fn request_snapshot(
        self,
        candidate: CandidateView,
        session_id: Seq<char>,
        request_id: Seq<char>,
        timestamp: Seq<char>,
        fill_percent: Option<u32>,
        now: u128,
    ) -> Option<SnapshotView> {
        let previous = self.before_request(candidate, session_id);
        let session = self.touched_session(session_id, now);
        match detection_of(candidate, previous, fill_percent) {
            Some(detection) => Some(
                snapshot_of(
                    self.assistant,
                    OccasionView { sequence: session.sequence(), timestamp, session_id, request_id },
                    candidate,
                    previous,
                    session.latest(),
                    detection,
                ),
            ),
            None => None,
        }
    }

    /// The store after a request was recorded that gave the snapshot, or none.
    pub open spec fn after_request(
        self,
        candidate: CandidateView,
        session_id: Seq<char>,
        snapshot: Option<SnapshotView>,
        now: u128,
    ) -> StoreView {
        let observation = observation_of(candidate, session_id, now);
        let session = SessionView {
            last_observation: Some(observation),
            ..self.touched_session(session_id, now)
        };
        StoreView {
            sessions: self.sessions.insert(
                session_id,
                match snapshot {
                    Some(taken) => session.with_snapshot(taken, self.limit),
                    None => session,
                },
            ),
            by_working_dir: self.by_working_dir.insert(candidate.working_dir, observation),
            ..self
        }
    }

    /// The snapshot of a generated summary.
    pub open spec fn summary_snapshot(
        self,
        candidate: CandidateView,
        session_id: Seq<char>,
        request_id: Seq<char>,
        timestamp: Seq<char>,
        summary: Seq<char>,
        now: u128,
    ) -> SnapshotView {
        let session = self.touched_session(session_id, now);
        snapshot_of(
            self.assistant,
            OccasionView { sequence: session.sequence(), timestamp, session_id, request_id },
            with_summary(candidate, summary),
            self.before_summary(candidate, session_id),
            session.latest(),
            summary_detection(self.assistant),
        )
    }

    /// The store after the snapshot of a generated summary was recorded.
    pub open spec fn after_summary(
        self,
        session_id: Seq<char>,
        snapshot: SnapshotView,
        now: u128,
    ) -> StoreView {
        StoreView {
            sessions: self.sessions.insert(
                session_id,
                self.touched_session(session_id, now).with_snapshot(snapshot, self.limit),
            ),
            ..self
        }
    }

    /// The snapshots of a session, from the oldest to the latest.
    pub open spec fn listed(self, session_id: Seq<char>) -> Seq<SnapshotView> {
        if self.sessions.contains_key(session_id) {
            self.sessions[session_id].snapshots
        } else {
            Seq::empty()
        }
    }

    /// The time before which a session has expired. There is none as long as the clock shows
    /// less than the time to live.
    pub open spec fn cutoff(self, now: u128) -> Option<u128> {
        if now >= self.ttl {
            Some((now - self.ttl) as u128)
        } else {
            None
        }
    }

    /// The sessions that have expired.
    pub open spec fn expired(self, now: u128) -> Set<Seq<char>> {
        match self.cutoff(now) {
            Some(cutoff) => self.sessions.dom().filter(
                |id: Seq<char>| self.sessions[id].last_activity < cutoff,
            ),
            None => Set::empty(),
        }
    }

    /// The store without what has expired.
    pub open spec fn without_expired(self, now: u128) -> StoreView {
        match self.cutoff(now) {
            Some(cutoff) => StoreView {
                sessions: self.sessions.remove_keys(self.expired(now)),
                by_working_dir: Map::new(
                    |dir: Seq<char>|
                        self.by_working_dir.contains_key(dir)
                            && self.by_working_dir[dir].observed_at >= cutoff,
                    |dir: Seq<char>| self.by_working_dir[dir],
                ),
                ..self
            },
            None => self,
        }
    }
}

impl StoreView {
    /// The store after the drift of a snapshot was replaced. Where the session or the snapshot
    /// is not there, it stays as it is.
    pub open spec fn after_drift_update(
        self,
        session_id: Seq<char>,
        sequence: u64,
        drift: DriftView,
    ) -> StoreView {
        match place_of(self.listed(session_id), sequence, 0) {
            Some(i) => {
                let session = self.sessions[session_id];
                let updated = SnapshotView { drift: Some(drift), ..session.snapshots[i] };
                StoreView {
                    sessions: self.sessions.insert(
                        session_id,
                        SessionView { snapshots: session.snapshots.update(i, updated), ..session },
                    ),
                    ..self
                }
            },
            None => self,
        }
    }

    /// The latest snapshot of a session, with the one before it.
    pub open spec fn pair(self, session_id: Seq<char>) -> Option<
        (Option<SnapshotView>, SnapshotView),
    > {
        let all = self.listed(session_id);
        if all.len() == 0 {
            None
        } else if all.len() == 1 {
            Some((None, all[0]))
        } else {
            Some((Some(all[all.len() - 2]), all.last()))
        }
    }
}

/// The place of the first snapshot with the given number.
pub open spec fn place_of(snapshots: Seq<SnapshotView>, sequence: u64, i: int) -> Option<int>
    decreases snapshots.len() - i,
{
    if !(0 <= i < snapshots.len()) {
        None
    } else if snapshots[i].sequence == sequence {
        Some(i)
    } else {
        place_of(snapshots, sequence, i + 1)
    }
}

/// What `place_of` gives is the first place of the number, and it gives one where there is one.
pub proof fn lemma_place_of(snapshots: Seq<SnapshotView>, sequence: u64, i: int)
    requires
        0 <= i <= snapshots.len(),
    ensures
        match place_of(snapshots, sequence, i) {
            Some(at) => i <= at < snapshots.len() && snapshots[at].sequence == sequence,
            None => forall|j: int|
                i <= j < snapshots.len() ==> (#[trigger] snapshots[j]).sequence != sequence,
        },
    decreases snapshots.len() - i,
{
    if i < snapshots.len() && snapshots[i].sequence != sequence {
        lemma_place_of(snapshots, sequence, i + 1);
    }
}

// ---- Every operation keeps what holds of a store ----

/// With the next number, one more snapshot leaves the latest of one more.
pub proof fn lemma_tail_grows(
    session: SessionView,
    snapshot: SnapshotView,
    count: nat,
    limit: nat,
)
    requires
        session.is_tail_of(count, limit),
        limit >= 1,
        snapshot.sequence == count + 1,
    ensures
        session.with_snapshot(snapshot, limit).is_tail_of(count + 1, limit),
{
    let after = session.with_snapshot(snapshot, limit);
    let last = after.snapshots.len() - 1;
    let shift: int = if session.snapshots.len() >= limit {
        1
    } else {
        0
    };
    assert forall|i: int| 0 <= i < after.snapshots.len() implies (
    #[trigger] after.snapshots[i]).sequence == count + 1 - after.snapshots.len() + 1 + i by {
        if i < last {
            assert(after.snapshots[i] == session.snapshots[i + shift]);
        }
    }
}

/// One more snapshot keeps what holds of a session.
pub proof fn lemma_with_snapshot_inv(
    session: SessionView,
    snapshot: SnapshotView,
    id: Seq<char>,
    limit: nat,
)
    requires
        session.inv(id, limit),
        limit >= 1,
        snapshot_inv(snapshot, id),
        snapshot.sequence == session.sequence(),
    ensures
        session.with_snapshot(snapshot, limit).inv(id, limit),
{
    let after = session.with_snapshot(snapshot, limit);
    let shift: int = if session.snapshots.len() >= limit {
        1
    } else {
        0
    };
    let last = after.snapshots.len() - 1;
    if session.next_sequence < u64::MAX {
        lemma_tail_grows(session, snapshot, (session.next_sequence - 1) as nat, limit);
    }
    assert forall|i: int| 0 <= i < last implies #[trigger] after.snapshots[i]
        == session.snapshots[i + shift] by {}
    assert(after.snapshots[last] == snapshot);
    assert forall|i: int, j: int|
        #![trigger after.snapshots[i], after.snapshots[j]]
        0 <= i < j < after.snapshots.len() implies comes_before(
        after.snapshots[i].sequence,
        after.snapshots[j].sequence,
    ) by {
        assert(after.snapshots[i] == session.snapshots[i + shift]);
        if j < last {
            assert(after.snapshots[j] == session.snapshots[j + shift]);
        }
    }
    assert forall|i: int| 0 <= i < after.snapshots.len() implies comes_before(
        (#[trigger] after.snapshots[i]).sequence,
        after.next_sequence,
    ) by {
        if i < last {
            assert(comes_before(session.snapshots[i + shift].sequence, session.next_sequence));
        }
    }
    assert forall|i: int| 0 <= i < after.snapshots.len() implies snapshot_inv(
        #[trigger] after.snapshots[i],
        id,
    ) by {
        if i < last {
            assert(snapshot_inv(session.snapshots[i + shift], id));
        }
    }
}

/// A session that is touched keeps what holds of it.
pub proof fn lemma_touched_inv(store: StoreView, session_id: Seq<char>, now: u128)
    requires
        store.inv(),
    ensures
        store.touched_session(session_id, now).inv(session_id, store.limit),
{
    if store.sessions.contains_key(session_id) {
        let session = store.sessions[session_id];
        let touched = store.touched_session(session_id, now);
        assert(session.inv(session_id, store.limit));
        assert(touched.snapshots == session.snapshots);
    }
}

/// Recording a request keeps what holds of a store.
pub proof fn lemma_request_inv(
    store: StoreView,
    candidate: CandidateView,
    session_id: Seq<char>,
    request_id: Seq<char>,
    timestamp: Seq<char>,
    fill_percent: Option<u32>,
    now: u128,
)
    requires
        store.inv(),
    ensures
        store.after_request(
            candidate,
            session_id,
            store.request_snapshot(candidate, session_id, request_id, timestamp, fill_percent, now),
            now,
        ).inv(),
{
    let snapshot = store.request_snapshot(
        candidate,
        session_id,
        request_id,
        timestamp,
        fill_percent,
        now,
    );
    let after = store.after_request(candidate, session_id, snapshot, now);
    lemma_touched_inv(store, session_id, now);
    let touched = store.touched_session(session_id, now);
    let session = SessionView {
        last_observation: Some(observation_of(candidate, session_id, now)),
        ..touched
    };
    assert(session.snapshots == touched.snapshots);
    assert(session.inv(session_id, store.limit));
    if let Some(taken) = snapshot {
        assert(snapshot_inv(taken, session_id));
        lemma_with_snapshot_inv(session, taken, session_id, store.limit);
    }
    assert forall|id: Seq<char>| #[trigger] after.sessions.contains_key(
        id,
    ) implies after.sessions[id].inv(id, after.limit) by {
        if id != session_id {
            assert(store.sessions.contains_key(id));
        }
    }
    assert forall|dir: Seq<char>| #[trigger]
        after.by_working_dir.contains_key(dir) implies after.by_working_dir[dir].working_dir
        == dir by {
        if dir != candidate.working_dir {
            assert(store.by_working_dir.contains_key(dir));
        }
    }
}

/// Recording a summary keeps what holds of a store.
pub proof fn lemma_summary_inv(
    store: StoreView,
    candidate: CandidateView,
    session_id: Seq<char>,
    request_id: Seq<char>,
    timestamp: Seq<char>,
    summary: Seq<char>,
    now: u128,
)
    requires
        store.inv(),
    ensures
        store.after_summary(
            session_id,
            store.summary_snapshot(candidate, session_id, request_id, timestamp, summary, now),
            now,
        ).inv(),
{
    let snapshot = store.summary_snapshot(
        candidate,
        session_id,
        request_id,
        timestamp,
        summary,
        now,
    );
    let after = store.after_summary(session_id, snapshot, now);
    lemma_touched_inv(store, session_id, now);
    lemma_with_snapshot_inv(
        store.touched_session(session_id, now),
        snapshot,
        session_id,
        store.limit,
    );
    assert forall|id: Seq<char>| #[trigger] after.sessions.contains_key(
        id,
    ) implies after.sessions[id].inv(id, after.limit) by {
        if id != session_id {
            assert(store.sessions.contains_key(id));
        }
    }
}

/// Replacing a drift keeps what holds of a store.
pub proof fn lemma_drift_update_inv(
    store: StoreView,
    session_id: Seq<char>,
    sequence: u64,
    drift: DriftView,
)
    requires
        store.inv(),
    ensures
        store.after_drift_update(session_id, sequence, drift).inv(),
{
    let after = store.after_drift_update(session_id, sequence, drift);
    let all = store.listed(session_id);
    lemma_place_of(all, sequence, 0);
    if let Some(at) = place_of(all, sequence, 0) {
        let session = store.sessions[session_id];
        let changed = after.sessions[session_id];
        assert(session.inv(session_id, store.limit));
        assert forall|i: int| 0 <= i < changed.snapshots.len() implies snapshot_inv(
            #[trigger] changed.snapshots[i],
            session_id,
        ) && changed.snapshots[i].sequence == session.snapshots[i].sequence by {
            assert(snapshot_inv(session.snapshots[i], session_id));
        }
        assert(changed.inv(session_id, store.limit));
        assert forall|id: Seq<char>| #[trigger] after.sessions.contains_key(
            id,
        ) implies after.sessions[id].inv(id, after.limit) by {
            if id != session_id {
                assert(store.sessions.contains_key(id));
            }
        }
    }
}

/// Dropping what has expired keeps what holds of a store.
pub proof fn lemma_cleanup_inv(store: StoreView, now: u128)
    requires
        store.inv(),
    ensures
        store.without_expired(now).inv(),
{
    let after = store.without_expired(now);
    assert forall|id: Seq<char>| #[trigger] after.sessions.contains_key(
        id,
    ) implies after.sessions[id].inv(id, after.limit) by {
        assert(store.sessions.contains_key(id));
    }
    assert(after.sessions.dom().subset_of(store.sessions.dom()));
}

} // verus!
