//! The store of snapshots, by session.
//!
//! Times are nanoseconds of a clock that the caller keeps.
use std::collections::VecDeque;

use vstd::prelude::*;
use vstd::string::*;

use crate::candidate::RequestSnapshotCandidate;
use crate::detection::{detect_compaction, observe, RequestObservation};
use crate::drift_score::DriftScore;
use crate::numeral::{parse_number, parsed_number};
use crate::record::{detect_summary, make_snapshot};
use crate::record::{initial_text, plain_where_possible, with_summary};
use crate::redact::compacted_summary_from_response;
use crate::redact::{denoised, lacks_noise, summary_text, tidied};
use crate::snapshot::{CompactionSnapshot, SnapshotView};
use crate::store_model::{place_of, SessionView, StoreView};
use crate::store_model::{
    lemma_cleanup_inv, lemma_drift_update_inv, lemma_request_inv, lemma_summary_inv,
};
use crate::text_map::{Stamped, TextMap};

verus! {

/// The setting for the number of snapshots that a session keeps.
pub const PROMPT_SNAPSHOT_LIMIT_ENV: &'static str = "CC_BLACKBOX_PROMPT_SNAPSHOT_LIMIT";

/// The setting for the seconds after which an idle session is dropped.
pub const PROMPT_SNAPSHOT_TTL_SECS_ENV: &'static str = "CC_BLACKBOX_PROMPT_SNAPSHOT_TTL_SECS";

/// The number of snapshots that a session keeps where nothing else is set.
pub const DEFAULT_MAX_SNAPSHOTS_PER_SESSION: usize = 5;

/// The seconds after which an idle session is dropped where nothing else is set.
pub const DEFAULT_SESSION_TTL_SECS: u64 = 3600;

/// The nanoseconds in a second.
pub const NANOS_PER_SEC: u128 = 1_000_000_000;

/// What is kept of a session.
#[derive(Debug)]
pub struct SnapshotSession {
    pub snapshots: VecDeque<CompactionSnapshot>,
    pub last_observation: Option<RequestObservation>,
    pub next_sequence: u64,
    pub last_activity: u128,
}

impl DeepView for SnapshotSession {
    type V = SessionView;

    open spec fn deep_view(&self) -> SessionView {
        SessionView {
            snapshots: self.snapshots.deep_view(),
            last_observation: self.last_observation.deep_view(),
            next_sequence: self.next_sequence,
            last_activity: self.last_activity,
        }
    }
}

impl Stamped for SnapshotSession {
    open spec fn stamp(&self) -> u128 {
        self.last_activity
    }

    fn touched_at(&self) -> u128 {
        self.last_activity
    }
}

impl Stamped for RequestObservation {
    open spec fn stamp(&self) -> u128 {
        self.observed_at
    }

    fn touched_at(&self) -> u128 {
        self.observed_at
    }
}


impl SnapshotSession {
    /// A session in which nothing has happened yet.
    fn fresh(now: u128) -> (session: SnapshotSession)
        ensures
            session.deep_view() == SessionView::fresh(now),
    {
        let session = SnapshotSession {
            snapshots: VecDeque::new(),
            last_observation: None,
            next_sequence: 1,
            last_activity: now,
        };
        assert(session.snapshots.deep_view() =~= Seq::<SnapshotView>::empty());
        session
    }

    /// The number of the next snapshot.
    fn sequence(&self) -> (sequence: u64)
        ensures
            sequence == self.deep_view().sequence(),
    {
        if self.next_sequence >= 1 {
            self.next_sequence
        } else {
            1
        }
    }

    /// The latest snapshot.
    fn latest(&self) -> (snapshot: Option<&CompactionSnapshot>)
        ensures
            snapshot.deep_view() == self.deep_view().latest(),
    {
        if self.snapshots.len() == 0 {
            None
        } else {
            Some(&self.snapshots[self.snapshots.len() - 1])
        }
    }

    /// Adds a snapshot. The oldest goes where the session is full.
    fn add_snapshot(&mut self, snapshot: CompactionSnapshot, limit: usize)
        ensures
            final(self).deep_view() == old(self).deep_view().with_snapshot(
                snapshot.deep_view(),
                limit as nat,
            ),
    {
        let ghost before = self.deep_view();
        let sequence: u64 = self.sequence();
        self.next_sequence = if sequence < u64::MAX {
            sequence + 1
        } else {
            u64::MAX
        };
        if self.snapshots.len() >= limit && self.snapshots.len() > 0 {
            let _oldest = self.snapshots.pop_front();
        }
        self.snapshots.push_back(snapshot);
        proof {
            let after = before.with_snapshot(snapshot.deep_view(), limit as nat);
            assert(self.snapshots.deep_view() =~= after.snapshots);
        }
    }
}

/// The snapshots of compacted conversations, by session, and the last requests seen.
#[derive(Debug)]
pub struct SnapshotStore {
    assistant: String,
    max_snapshots_per_session: usize,
    ttl: u128,
    sessions: TextMap<SnapshotSession>,
    by_working_dir: TextMap<RequestObservation>,
}

impl DeepView for SnapshotStore {
    type V = StoreView;

    closed spec fn deep_view(&self) -> StoreView {
        StoreView {
            assistant: self.assistant@,
            limit: self.max_snapshots_per_session as nat,
            ttl: self.ttl,
            sessions: self.sessions@.map_values(|session: SnapshotSession| session.deep_view()),
            by_working_dir: self.by_working_dir@.map_values(
                |observation: RequestObservation| observation.deep_view(),
            ),
        }
    }
}

impl SnapshotStore {
    /// The store is as its operations leave it.
    pub closed spec fn wf(&self) -> bool {
        &&& self.sessions.wf()
        &&& self.by_working_dir.wf()
        &&& self.deep_view().inv()
    }

    /// What holds of every store holds of this one.
    pub proof fn lemma_wf(&self)
        requires
            self.wf(),
        ensures
            self.deep_view().inv(),
    {
    }

    /// An empty store that keeps the given number of snapshots per session, one at the least,
    /// and drops sessions that were idle for longer than `ttl`. Conversations are with the
    /// assistant of the given name.
    pub fn new(max_snapshots_per_session: usize, ttl: u128, assistant: String) -> (store: Self)
        ensures
            store.wf(),
            store.deep_view() == (StoreView {
                assistant: assistant@,
                limit: if max_snapshots_per_session >= 1 {
                    max_snapshots_per_session as nat
                } else {
                    1
                },
                ttl,
                sessions: Map::empty(),
                by_working_dir: Map::empty(),
            }),
    {
        let store = SnapshotStore {
            assistant,
            max_snapshots_per_session: if max_snapshots_per_session >= 1 {
                max_snapshots_per_session
            } else {
                1
            },
            ttl,
            sessions: TextMap::new(),
            by_working_dir: TextMap::new(),
        };
        assert(store.deep_view().sessions =~= Map::empty());
        assert(store.deep_view().by_working_dir =~= Map::empty());
        store
    }

    /// An empty store as the settings have it: the number of snapshots per session, and the
    /// seconds that a session may be idle. A setting that is no number counts as none.
    pub fn from_settings(
        limit: Option<&str>,
        ttl_secs: Option<&str>,
        assistant: String,
    ) -> (store: Self)
        ensures
            store.wf(),
            store.deep_view() == settings_store(
                limit.deep_view(),
                ttl_secs.deep_view(),
                assistant@,
            ),
    {
        let max: usize = match limit {
            Some(setting) => match parse_number(setting, usize::MAX as u64) {
                Some(number) => number as usize,
                None => DEFAULT_MAX_SNAPSHOTS_PER_SESSION,
            },
            None => DEFAULT_MAX_SNAPSHOTS_PER_SESSION,
        };
        let secs: u64 = match ttl_secs {
            Some(setting) => match parse_number(setting, u64::MAX) {
                Some(number) => number,
                None => DEFAULT_SESSION_TTL_SECS,
            },
            None => DEFAULT_SESSION_TTL_SECS,
        };
        SnapshotStore::new(max, secs as u128 * NANOS_PER_SEC, assistant)
    }

    /// The last observation in a session.
    fn last_observed_in(&self, session_id: &str) -> (observation: Option<RequestObservation>)
        requires
            self.wf(),
        ensures
            observation.deep_view() == self.deep_view().observed_in(session_id@),
    {
        match self.sessions.get(session_id) {
            Some(session) => session.last_observation.clone(),
            None => None,
        }
    }

    /// The last observation in a working directory.
    fn last_observed_at(&self, working_dir: &str) -> (observation: Option<RequestObservation>)
        requires
            self.wf(),
        ensures
            observation.deep_view() == self.deep_view().observed_at(working_dir@),
    {
        match self.by_working_dir.get(working_dir) {
            Some(observation) => Some(observation.clone()),
            None => None,
        }
    }

    /// Takes a session out of the store, active now; a fresh one where there is none.
    fn take_session(&mut self, session_id: &str, now: u128) -> (session: SnapshotSession)
        requires
            old(self).sessions.wf(),
        ensures
            session.deep_view() == old(self).deep_view().touched_session(session_id@, now),
            final(self).sessions.wf(),
            final(self).sessions@ == old(self).sessions@.remove(session_id@),
            final(self).by_working_dir == old(self).by_working_dir,
            final(self).assistant == old(self).assistant,
            final(self).ttl == old(self).ttl,
            final(self).max_snapshots_per_session == old(self).max_snapshots_per_session,
    {
        match self.sessions.remove(session_id) {
            Some(taken) => {
                let mut session = taken;
                session.last_activity = now;
                session
            },
            None => SnapshotSession::fresh(now),
        }
    }

    /// Records a request. Where it shows signs of a compaction, a snapshot is taken, kept and
    /// handed back. The fill of the context before it is in whole percents, rounded down.
    pub fn record_request(
        &mut self,
        candidate: RequestSnapshotCandidate,
        session_id: String,
        request_id: String,
        timestamp: String,
        previous_context_fill_percent: Option<u32>,
        now: u128,
    ) -> (snapshot: Option<CompactionSnapshot>)
        requires
            old(self).wf(),
        ensures
            final(self).wf(),
            snapshot.deep_view() == old(self).deep_view().request_snapshot(
                candidate.deep_view(),
                session_id@,
                request_id@,
                timestamp@,
                previous_context_fill_percent,
                now,
            ),
            snapshot is Some ==> plain_where_possible(
                snapshot->0.deep_view().excerpts,
                candidate.deep_view(),
                initial_text(
                    candidate.deep_view(),
                    old(self).deep_view().before_request(candidate.deep_view(), session_id@),
                ),
            ),
            final(self).deep_view() == old(self).deep_view().after_request(
                candidate.deep_view(),
                session_id@,
                snapshot.deep_view(),
                now,
            ),
    {
        let ghost before = self.deep_view();
        let ghost c = candidate.deep_view();
        let previous = match self.last_observed_in(session_id.as_str()) {
            Some(observation) => Some(observation),
            None => match self.last_observed_at(candidate.working_dir.as_str()) {
                Some(observation) => if observation.first_message_hash
                    != candidate.first_message_hash {
                    Some(observation)
                } else {
                    None
                },
                None => None,
            },
        };
        assert(previous.deep_view() == before.before_request(c, session_id@));
        let detection = detect_compaction(
            &candidate,
            previous.as_ref(),
            previous_context_fill_percent,
        );
        let observation = observe(&candidate, &session_id, now);
        self.by_working_dir.insert(candidate.working_dir.clone(), observation.clone());
        let mut session = self.take_session(session_id.as_str(), now);
        session.last_observation = Some(observation);
        let snapshot = match detection {
            Some(found) => {
                let taken = make_snapshot(
                    self.assistant.as_str(),
                    session.sequence(),
                    timestamp,
                    &session_id,
                    request_id,
                    &candidate,
                    previous.as_ref(),
                    session.latest(),
                    found,
                );
                session.add_snapshot(taken.clone(), self.max_snapshots_per_session);
                Some(taken)
            },
            None => None,
        };
        self.sessions.insert(session_id, session);
        proof {
            lemma_request_inv(
                before,
                c,
                session_id@,
                request_id@,
                timestamp@,
                previous_context_fill_percent,
                now,
            );
            let after = before.after_request(c, session_id@, snapshot.deep_view(), now);
            assert(self.deep_view().sessions =~= after.sessions);
            assert(self.deep_view().by_working_dir =~= after.by_working_dir);
        }
        snapshot
    }

    /// The session of the last request in a working directory.
    pub fn latest_session_id_for_working_dir(&self, working_dir: &str) -> (session_id: Option<
        String,
    >)
        requires
            self.wf(),
        ensures
            session_id.deep_view() == match self.deep_view().observed_at(working_dir@) {
                Some(observation) => Some(observation.session_id),
                None => None,
            },
    {
        match self.by_working_dir.get(working_dir) {
            Some(observation) => Some(observation.session_id.clone()),
            None => None,
        }
    }

    /// Records a summary that answers a request: a snapshot is taken, kept and handed back.
    pub fn record_summary(
        &mut self,
        candidate: RequestSnapshotCandidate,
        session_id: String,
        request_id: String,
        timestamp: String,
        summary: String,
        now: u128,
    ) -> (snapshot: CompactionSnapshot)
        requires
            old(self).wf(),
        ensures
            final(self).wf(),
            snapshot.deep_view() == old(self).deep_view().summary_snapshot(
                candidate.deep_view(),
                session_id@,
                request_id@,
                timestamp@,
                summary@,
                now,
            ),
            plain_where_possible(
                snapshot.deep_view().excerpts,
                with_summary(candidate.deep_view(), summary@),
                initial_text(
                    candidate.deep_view(),
                    old(self).deep_view().before_summary(candidate.deep_view(), session_id@),
                ),
            ),
            final(self).deep_view() == old(self).deep_view().after_summary(
                session_id@,
                snapshot.deep_view(),
                now,
            ),
    {
        let ghost before = self.deep_view();
        let ghost c = candidate.deep_view();
        let mut candidate = candidate;
        candidate.compacted_objective_text = summary.clone();
        candidate.compact_summary_text = Some(summary.clone());
        candidate.detection_text = summary;
        candidate.explicit_compaction_marker = true;
        let previous = match self.last_observed_in(session_id.as_str()) {
            Some(observation) => Some(observation),
            None => self.last_observed_at(candidate.working_dir.as_str()),
        };
        let mut session = self.take_session(session_id.as_str(), now);
        let snapshot = make_snapshot(
            self.assistant.as_str(),
            session.sequence(),
            timestamp,
            &session_id,
            request_id,
            &candidate,
            previous.as_ref(),
            session.latest(),
            detect_summary(self.assistant.as_str()),
        );
        session.add_snapshot(snapshot.clone(), self.max_snapshots_per_session);
        self.sessions.insert(session_id, session);
        proof {
            lemma_summary_inv(before, c, session_id@, request_id@, timestamp@, summary@, now);
            let after = before.after_summary(session_id@, snapshot.deep_view(), now);
            assert(self.deep_view().sessions =~= after.sessions);
        }
        snapshot
    }

    /// Records the response to a request for a summary. A response that holds no text leaves
    /// the store as it is.
    pub fn record_generated_summary(
        &mut self,
        candidate: RequestSnapshotCandidate,
        session_id: String,
        request_id: String,
        timestamp: String,
        response_text: &str,
        now: u128,
    ) -> (snapshot: Option<CompactionSnapshot>)
        requires
            old(self).wf(),
        ensures
            final(self).wf(),
            snapshot.deep_view() == match summary_text(denoised(response_text@)) {
                Some(summary) => Some(
                    old(self).deep_view().summary_snapshot(
                        candidate.deep_view(),
                        session_id@,
                        request_id@,
                        timestamp@,
                        summary,
                        now,
                    ),
                ),
                None => None,
            },
            snapshot is Some ==> plain_where_possible(
                snapshot->0.deep_view().excerpts,
                with_summary(
                    candidate.deep_view(),
                    summary_text(denoised(response_text@))->0,
                ),
                initial_text(
                    candidate.deep_view(),
                    old(self).deep_view().before_summary(candidate.deep_view(), session_id@),
                ),
            ),
            lacks_noise(response_text@) ==> (snapshot is Some <==> summary_text(
                tidied(response_text@),
            ) is Some),
            lacks_noise(response_text@) && snapshot is Some ==> snapshot.deep_view() == Some(
                old(self).deep_view().summary_snapshot(
                    candidate.deep_view(),
                    session_id@,
                    request_id@,
                    timestamp@,
                    summary_text(tidied(response_text@))->0,
                    now,
                ),
            ),
            final(self).deep_view() == match snapshot.deep_view() {
                Some(taken) => old(self).deep_view().after_summary(session_id@, taken, now),
                None => old(self).deep_view(),
            },
    {
        match compacted_summary_from_response(response_text) {
            Some(summary) => Some(
                self.record_summary(candidate, session_id, request_id, timestamp, summary, now),
            ),
            None => None,
        }
    }

    /// The snapshots of a session, from the oldest to the latest.
    pub fn list_session_snapshots(&self, session_id: &str) -> (snapshots: Vec<CompactionSnapshot>)
        requires
            self.wf(),
        ensures
            snapshots.deep_view() == self.deep_view().listed(session_id@),
    {
        match self.sessions.get(session_id) {
            Some(session) => {
                copy_snapshots(&session.snapshots)
            },
            None => {
                let snapshots: Vec<CompactionSnapshot> = Vec::new();
                assert(snapshots.deep_view() =~= Seq::<SnapshotView>::empty());
                snapshots
            },
        }
    }

    /// The latest snapshot of a session, with the one before it.
    pub fn latest_pair(&self, session_id: &str) -> (pair: Option<
        (Option<CompactionSnapshot>, CompactionSnapshot),
    >)
        requires
            self.wf(),
        ensures
            pair.deep_view() == self.deep_view().pair(session_id@),
    {
        match self.sessions.get(session_id) {
            Some(session) => {
                let count: usize = session.snapshots.len();
                if count == 0 {
                    None
                } else if count == 1 {
                    Some((None, session.snapshots[0].clone()))
                } else {
                    Some(
                        (
                            Some(session.snapshots[count - 2].clone()),
                            session.snapshots[count - 1].clone(),
                        ),
                    )
                }
            },
            None => None,
        }
    }

    /// Replaces the drift of a snapshot, and hands back the snapshot, where it is there.
    pub fn update_drift(&mut self, session_id: &str, sequence: u64, drift: DriftScore) -> (snapshot:
        Option<CompactionSnapshot>)
        requires
            old(self).wf(),
        ensures
            final(self).wf(),
            final(self).deep_view() == old(self).deep_view().after_drift_update(
                session_id@,
                sequence,
                drift.deep_view(),
            ),
            snapshot.deep_view() == match place_of(
                old(self).deep_view().listed(session_id@),
                sequence,
                0,
            ) {
                Some(i) => Some(
                    SnapshotView {
                        drift: Some(drift.deep_view()),
                        ..old(self).deep_view().listed(session_id@)[i]
                    },
                ),
                None => None,
            },
    {
        let ghost before = self.deep_view();
        let ghost all = before.listed(session_id@);
        let place = match self.sessions.get(session_id) {
            Some(session) => find_sequence(&session.snapshots, sequence),
            None => None,
        };
        match place {
            Some(i) => {
                proof {
                    lemma_drift_update_inv(before, session_id@, sequence, drift.deep_view());
                }
                match self.sessions.remove(session_id) {
                    Some(taken) => {
                        let mut session = taken;
                        let mut snapshot = session.snapshots[i].clone();
                        snapshot.drift = Some(drift);
                        let _replaced = session.snapshots.remove(i);
                        session.snapshots.insert(i, snapshot.clone());
                        self.sessions.insert(session_id.to_string(), session);
                        proof {
                            let after = before.after_drift_update(
                                session_id@,
                                sequence,
                                drift.deep_view(),
                            );
                            assert(session.snapshots.deep_view()
                                =~= after.sessions[session_id@].snapshots);
                            assert(self.deep_view().sessions =~= after.sessions);
                        }
                        Some(snapshot)
                    },
                    None => None,
                }
            },
            None => None,
        }
    }

    /// Drops what has expired, and counts the sessions among it.
    pub fn cleanup_expired(&mut self, now: u128) -> (count: usize)
        requires
            old(self).wf(),
        ensures
            final(self).wf(),
            final(self).deep_view() == old(self).deep_view().without_expired(now),
            count == old(self).deep_view().expired(now).len(),
    {
        let ghost before = self.deep_view();
        proof {
            lemma_cleanup_inv(before, now);
        }
        if now < self.ttl {
            return 0;
        }
        let cutoff: u128 = now - self.ttl;
        let count: usize = self.sessions.len();
        self.sessions.retain_since(cutoff);
        self.by_working_dir.retain_since(cutoff);
        let left: usize = self.sessions.len();
        proof {
            let after = before.without_expired(now);
            let expired = before.expired(now);
            assert(self.deep_view().sessions =~= after.sessions);
            assert(self.deep_view().by_working_dir =~= after.by_working_dir);
            assert(old(self).sessions@.dom() =~= before.sessions.dom());
            assert(self.sessions@.dom() =~= before.sessions.dom().difference(expired));
            vstd::set_lib::lemma_set_disjoint_lens(self.sessions@.dom(), expired);
            assert(self.sessions@.dom().union(expired) =~= before.sessions.dom());
        }
        count - left
    }
}

/// The store that the settings ask for.
pub open spec fn settings_store(
    limit: Option<Seq<char>>,
    ttl_secs: Option<Seq<char>>,
    assistant: Seq<char>,
) -> StoreView {
    let max = setting_number(limit, usize::MAX as nat, DEFAULT_MAX_SNAPSHOTS_PER_SESSION as nat);
    let secs = setting_number(ttl_secs, u64::MAX as nat, DEFAULT_SESSION_TTL_SECS as nat);
    StoreView {
        assistant,
        limit: if max >= 1 {
            max
        } else {
            1
        },
        ttl: (secs * NANOS_PER_SEC) as u128,
        sessions: Map::empty(),
        by_working_dir: Map::empty(),
    }
}

/// The number that a setting gives, or else the default.
pub open spec fn setting_number(setting: Option<Seq<char>>, largest: nat, default: nat) -> nat {
    match setting {
        Some(text) => match parsed_number(text, largest) {
            Some(number) => number,
            None => default,
        },
        None => default,
    }
}

/// Copies the snapshots of a session, from the oldest to the latest.
fn copy_snapshots(snapshots: &VecDeque<CompactionSnapshot>) -> (copy: Vec<CompactionSnapshot>)
    ensures
        copy.deep_view() == snapshots.deep_view(),
{
    let mut copy: Vec<CompactionSnapshot> = Vec::new();
    let mut i: usize = 0;
    assert(copy.deep_view() =~= snapshots.deep_view().take(0));
    while i < snapshots.len()
        invariant
            i <= snapshots@.len(),
            copy.deep_view() == snapshots.deep_view().take(i as int),
        decreases snapshots@.len() - i,
    {
        let ghost before = copy.deep_view();
        copy.push(snapshots[i].clone());
        i += 1;
        assert(copy.deep_view() =~= before.push(snapshots.deep_view()[i - 1]));
        assert(copy.deep_view() =~= snapshots.deep_view().take(i as int));
    }
    assert(snapshots.deep_view().take(i as int) =~= snapshots.deep_view());
    copy
}

/// Finds the first snapshot with the given number.
fn find_sequence(snapshots: &VecDeque<CompactionSnapshot>, sequence: u64) -> (place: Option<usize>)
    ensures
        match place {
            Some(i) => i < snapshots@.len() && place_of(snapshots.deep_view(), sequence, 0) == Some(
                i as int,
            ),
            None => place_of(snapshots.deep_view(), sequence, 0) is None,
        },
{
    let mut i: usize = 0;
    while i < snapshots.len()
        invariant
            i <= snapshots@.len(),
            place_of(snapshots.deep_view(), sequence, 0) == place_of(
                snapshots.deep_view(),
                sequence,
                i as int,
            ),
        decreases snapshots@.len() - i,
    {
        if snapshots[i].sequence == sequence {
            return Some(i);
        }
        i += 1;
    }
    None
}

} // verus!
