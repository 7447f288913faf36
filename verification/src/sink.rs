//! Handing a session's samples to an ordered store, and the summary that
//! follows.
//!
//! The sink decides what is written next and what the summary says; the
//! caller performs each write and reports whether it succeeded. A failed
//! write is skipped under `BestEffort`; under `FailFast` it ends the hand-over
//! and no summary is published. The summary counts the samples that were
//! stored, and its times are those of the first and last of them.
//!
//! The store is modelled as a map from a sample to its score, the sample's
//! whole seconds. Writing a sample that is already there leaves the store
//! as it was, so a replayed update merges with its first run.

use vstd::prelude::*;
use vstd::string::StringExecFns;
use crate::clock::Timestamp;
use crate::propagation::Strictness;
use crate::tle::{PositionView, SatellitePosition};

verus! {

/// Why a write or a publication did not happen.
#[derive(Debug, Clone, Copy, PartialEq, Eq, Structural)]
pub enum StoreError {
    /// The key is empty; nothing was sent.
    EmptyKey,
    /// The payload could not be encoded; nothing was sent.
    Serialization,
    /// No connection to the store could be made.
    Connection,
    /// The store refused or failed the command.
    Write,
}

impl StoreError {
    /// A short account of the failure, for logs.
    pub fn message(&self) -> (r: &'static str)
        ensures
            r@ == match *self {
                StoreError::EmptyKey => "Empty Redis key"@,
                StoreError::Serialization => "Serialization error"@,
                StoreError::Connection => "Failed to connect to Redis"@,
                StoreError::Write => "Failed to execute ZADD"@,
            },
    {
        match self {
            StoreError::EmptyKey => "Empty Redis key",
            StoreError::Serialization => "Serialization error",
            StoreError::Connection => "Failed to connect to Redis",
            StoreError::Write => "Failed to execute ZADD",
        }
    }

    /// Whether the failure arose before anything was sent to the store.
    pub fn is_refusal(&self) -> (r: bool)
        ensures
            r == (*self == StoreError::EmptyKey || *self == StoreError::Serialization),
    {
        match self {
            StoreError::EmptyKey => true,
            StoreError::Serialization => true,
            StoreError::Connection => false,
            StoreError::Write => false,
        }
    }
}

/// One write to a per-satellite ordered collection.
#[derive(Debug)]
pub struct StoreCommand {
    pub key: String,
    pub score: i64,
    pub member: String,
}

/// The summary of one processed update.
#[derive(Debug)]
pub struct SessionResult {
    pub satellite_id: String,
    pub start_time: Option<Timestamp>,
    pub end_time: Option<Timestamp>,
    pub positions_count: usize,
}

/// A summary as plain values.
pub struct SummaryView {
    pub satellite_id: Seq<char>,
    pub start_time: Option<Timestamp>,
    pub end_time: Option<Timestamp>,
    pub positions_count: int,
}

impl View for SessionResult {
    type V = SummaryView;

    open spec fn view(&self) -> SummaryView {
        SummaryView {
            satellite_id: self.satellite_id@,
            start_time: self.start_time,
            end_time: self.end_time,
            positions_count: self.positions_count as int,
        }
    }
}

/// The key under which a satellite's samples are stored.
pub open spec fn position_key_text(satellite_id: Seq<char>) -> Seq<char> {
    "satellite_positions:"@ + satellite_id
}

/// The instant of a sample.
pub open spec fn time_of(s: PositionView) -> Timestamp {
    Timestamp { seconds: s.epoch_seconds as i64, nanos: s.subsec_nanos as u32 }
}

/// The samples whose write succeeded, in order: sample `i` is kept where
/// `outcomes[i]` holds.
pub open spec fn persisted(samples: Seq<PositionView>, outcomes: Seq<bool>) -> Seq<PositionView>
    recommends
        outcomes.len() <= samples.len(),
    decreases outcomes.len(),
{
    if outcomes.len() == 0 {
        Seq::empty()
    } else {
        let earlier = persisted(samples, outcomes.drop_last());
        if outcomes.last() {
            earlier.push(samples[outcomes.len() - 1])
        } else {
            earlier
        }
    }
}

/// The summary of the samples that were kept.
pub open spec fn summary_of(satellite_id: Seq<char>, kept: Seq<PositionView>) -> SummaryView {
    SummaryView {
        satellite_id,
        start_time: if kept.len() > 0 {
            Some(time_of(kept.first()))
        } else {
            None
        },
        end_time: if kept.len() > 0 {
            Some(time_of(kept.last()))
        } else {
            None
        },
        positions_count: kept.len() as int,
    }
}

/// Where every write so far succeeded, the samples kept are the samples
/// attempted; where all were attempted, the summary counts them all.
pub proof fn lemma_all_stored_keeps_all(samples: Seq<PositionView>, outcomes: Seq<bool>)
    requires
        outcomes.len() <= samples.len(),
        forall|i: int| 0 <= i < outcomes.len() ==> #[trigger] outcomes[i],
    ensures
        persisted(samples, outcomes) == samples.take(outcomes.len() as int),
    decreases outcomes.len(),
{
    if outcomes.len() > 0 {
        let earlier = outcomes.drop_last();
        lemma_all_stored_keeps_all(samples, earlier);
        assert(samples.take(earlier.len() as int).push(samples[outcomes.len() - 1])
            =~= samples.take(outcomes.len() as int));
    } else {
        assert(samples.take(0) =~= Seq::<PositionView>::empty());
    }
}

/// The samples kept never outnumber the writes attempted.
pub proof fn lemma_kept_is_bounded(samples: Seq<PositionView>, outcomes: Seq<bool>)
    ensures
        persisted(samples, outcomes).len() <= outcomes.len(),
    decreases outcomes.len(),
{
    if outcomes.len() > 0 {
        lemma_kept_is_bounded(samples, outcomes.drop_last());
    }
}

/// Builds the key under which a satellite's samples are stored.
pub fn position_key(satellite_id: &str) -> (r: String)
    ensures
        r@ == position_key_text(satellite_id@),
{
    "satellite_positions:".to_owned().concat(satellite_id)
}

/// Prepares one write: the key must not be empty and the payload must have
/// been encoded (`None` stands for a payload that could not be). Nothing is
/// prepared otherwise, so nothing malformed reaches the store.
pub fn store_to_redis(key: &str, data: Option<String>, score: i64) -> (r: Result<
    StoreCommand,
    StoreError,
>)
    ensures
        key@.len() == 0 ==> r == Err::<StoreCommand, StoreError>(StoreError::EmptyKey),
        key@.len() > 0 && data is None ==> r == Err::<StoreCommand, StoreError>(
            StoreError::Serialization,
        ),
        key@.len() > 0 && data is Some ==> r is Ok && r->Ok_0.key@ == key@ && r->Ok_0.member
            == data->0 && r->Ok_0.score == score,
{
    if key.is_empty() {
        return Err(StoreError::EmptyKey);
    }
    match data {
        None => Err(StoreError::Serialization),
        Some(member) => Ok(StoreCommand { key: key.to_owned(), score, member }),
    }
}

/// What the caller is to do next.
#[derive(Debug)]
pub enum SinkAction {
    /// Write sample `index` under `key` with `score`.
    Store { index: usize, key: String, score: i64 },
    /// Publish the summary; every sample has been attempted.
    Publish { summary: SessionResult },
    /// Nothing is left to do.
    Done,
}

/// The hand-over of one session's samples.
#[derive(Debug)]
pub struct PersistSession {
    pub satellite_id: String,
    pub samples: Vec<SatellitePosition>,
    pub strictness: Strictness,
    /// Whether each write attempted so far succeeded.
    pub outcomes: Vec<bool>,
    /// Set when a failed write has ended a `FailFast` hand-over.
    pub halted: bool,
    pub published: bool,
}

impl PersistSession {
    /// The samples as plain values.
    pub open spec fn sample_views(&self) -> Seq<PositionView> {
        self.samples@.map_values(|s: SatellitePosition| s@)
    }

    /// The samples stored so far.
    pub open spec fn kept(&self) -> Seq<PositionView> {
        persisted(self.sample_views(), self.outcomes@)
    }

    /// The invariant of every hand-over.
    pub open spec fn wf(&self) -> bool {
        &&& self.outcomes@.len() <= self.samples@.len()
        &&& self.halted ==> self.strictness == Strictness::FailFast && self.outcomes@.len() > 0
            && !self.outcomes@.last()
        &&& self.strictness == Strictness::FailFast && !self.halted ==> forall|i: int|
            0 <= i < self.outcomes@.len() ==> #[trigger] self.outcomes@[i]
        &&& self.published ==> !self.halted && self.outcomes@.len() == self.samples@.len()
    }

    /// Whether a write is due.
    pub open spec fn store_due(&self) -> bool {
        !self.halted && self.outcomes@.len() < self.samples@.len()
    }

    /// Whether the summary is due.
    pub open spec fn publish_due(&self) -> bool {
        !self.halted && self.outcomes@.len() == self.samples@.len() && !self.published
    }

    /// Opens the hand-over of a session's samples.
    pub fn new(satellite_id: String, samples: Vec<SatellitePosition>, strictness: Strictness) -> (r:
        PersistSession)
        ensures
            r.satellite_id == satellite_id,
            r.samples == samples,
            r.strictness == strictness,
            r.outcomes@.len() == 0,
            !r.halted,
            !r.published,
            r.wf(),
    {
        PersistSession {
            satellite_id,
            samples,
            strictness,
            outcomes: Vec::new(),
            halted: false,
            published: false,
        }
    }

    /// The summary of what has been stored so far.
    pub fn summary(&self) -> (r: SessionResult)
        requires
            self.wf(),
        ensures
            r@ == summary_of(self.satellite_id@, self.kept()),
    {
        let ghost views = self.sample_views();
        let mut count: usize = 0;
        let mut first: Option<Timestamp> = None;
        let mut last: Option<Timestamp> = None;
        let mut i: usize = 0;
        assert(self.outcomes@.take(0) =~= Seq::empty());
        while i < self.outcomes.len()
            invariant
                self.wf(),
                views == self.sample_views(),
                i <= self.outcomes@.len(),
                count <= i,
                summary_of(self.satellite_id@, persisted(views, self.outcomes@.take(i as int)))
                    == (SummaryView {
                    satellite_id: self.satellite_id@,
                    start_time: first,
                    end_time: last,
                    positions_count: count as int,
                }),
            decreases self.outcomes@.len() - i,
        {
            assert(self.outcomes@.take(i + 1).drop_last() =~= self.outcomes@.take(i as int));
            if self.outcomes[i] {
                let at = Timestamp {
                    seconds: self.samples[i].epoch_seconds,
                    nanos: self.samples[i].subsec_nanos,
                };
                assert(at == time_of(views[i as int]));
                if count == 0 {
                    first = Some(at);
                }
                last = Some(at);
                count = count + 1;
            }
            i = i + 1;
        }
        assert(self.outcomes@.take(i as int) =~= self.outcomes@);
        SessionResult {
            satellite_id: self.satellite_id.clone(),
            start_time: first,
            end_time: last,
            positions_count: count,
        }
    }

    /// What is to be done next: the next write while samples remain, then
    /// the summary, then nothing. A halted hand-over has nothing left.
    pub fn next_action(&self) -> (r: SinkAction)
        requires
            self.wf(),
        ensures
            match r {
                SinkAction::Store { index, key, score } => {
                    &&& self.store_due()
                    &&& index == self.outcomes@.len()
                    &&& key@ == position_key_text(self.satellite_id@)
                    &&& score == self.samples@[index as int].epoch_seconds
                },
                SinkAction::Publish { summary } => {
                    &&& self.publish_due()
                    &&& summary@ == summary_of(self.satellite_id@, self.kept())
                },
                SinkAction::Done => !self.store_due() && !self.publish_due(),
            },
    {
        if self.halted {
            SinkAction::Done
        } else if self.outcomes.len() < self.samples.len() {
            let index = self.outcomes.len();
            SinkAction::Store {
                index,
                key: position_key(self.satellite_id.as_str()),
                score: self.samples[index].epoch_seconds,
            }
        } else if !self.published {
            SinkAction::Publish { summary: self.summary() }
        } else {
            SinkAction::Done
        }
    }

    /// Records whether the write that was due succeeded. Where no write is
    /// due the hand-over stays as it is.
    pub fn record_store(&mut self, stored: bool)
        requires
            old(self).wf(),
        ensures
            final(self).wf(),
            final(self).satellite_id == old(self).satellite_id,
            final(self).samples == old(self).samples,
            final(self).strictness == old(self).strictness,
            final(self).published == old(self).published,
            old(self).store_due() ==> final(self).outcomes@ == old(self).outcomes@.push(stored)
                && final(self).halted == (!stored && old(self).strictness
                == Strictness::FailFast),
            !old(self).store_due() ==> final(self).outcomes@ == old(self).outcomes@
                && final(self).halted == old(self).halted,
    {
        if !self.halted && self.outcomes.len() < self.samples.len() {
            self.outcomes.push(stored);
            if !stored {
                match self.strictness {
                    Strictness::FailFast => {
                        self.halted = true;
                    },
                    Strictness::BestEffort => {},
                }
            }
        }
    }

    /// Records that the summary was handed to the event channel, whether or
    /// not the channel took it. Where no summary is due the hand-over stays
    /// as it is.
    pub fn record_publish(&mut self)
        requires
            old(self).wf(),
        ensures
            final(self).wf(),
            final(self).satellite_id == old(self).satellite_id,
            final(self).samples == old(self).samples,
            final(self).strictness == old(self).strictness,
            final(self).outcomes == old(self).outcomes,
            final(self).halted == old(self).halted,
            final(self).published == (old(self).published || old(self).publish_due()),
    {
        if !self.halted && self.outcomes.len() == self.samples.len() {
            self.published = true;
        }
    }
}

/// The ordered store: each member with its score.
pub type OrderedStore = Map<PositionView, int>;

/// The store after one sample is written: the sample is a member, scored
/// by its whole seconds.
pub open spec fn store_add(store: OrderedStore, s: PositionView) -> OrderedStore {
    store.insert(s, s.epoch_seconds)
}

/// The store after the samples are written one by one.
pub open spec fn store_all(store: OrderedStore, samples: Seq<PositionView>) -> OrderedStore
    decreases samples.len(),
{
    if samples.len() == 0 {
        store
    } else {
        store_add(store_all(store, samples.drop_last()), samples.last())
    }
}

/// Every member is scored by its own whole seconds.
pub open spec fn scored_by_time(store: OrderedStore) -> bool {
    forall|m: PositionView| store.contains_key(m) ==> #[trigger] store[m] == m.epoch_seconds
}

/// After the samples are written, the members are those from before and
/// the samples; each sample is scored by its whole seconds and every other
/// member keeps its score.
pub proof fn lemma_store_all_contents(store: OrderedStore, samples: Seq<PositionView>)
    ensures
        forall|m: PositionView| #[trigger]
            store_all(store, samples).contains_key(m) <==> store.contains_key(m)
                || samples.contains(m),
        forall|m: PositionView|
            store_all(store, samples).contains_key(m) ==> #[trigger] store_all(store, samples)[m]
                == (if samples.contains(m) {
                m.epoch_seconds
            } else {
                store[m]
            }),
    decreases samples.len(),
{
    if samples.len() > 0 {
        let earlier = samples.drop_last();
        let before = store_all(store, earlier);
        let after = store_all(store, samples);
        lemma_store_all_contents(store, earlier);
        assert forall|m: PositionView| samples.contains(m) <==> earlier.contains(m) || m
            == samples.last() by {
            if samples.contains(m) {
                let i = choose|i: int| 0 <= i < samples.len() && samples[i] == m;
                if i < earlier.len() {
                    assert(earlier[i] == m);
                }
            }
            if earlier.contains(m) {
                let i = choose|i: int| 0 <= i < earlier.len() && earlier[i] == m;
                assert(samples[i] == m);
            }
            if m == samples.last() {
                assert(samples[samples.len() - 1] == m);
            }
        }
        assert forall|m: PositionView| #[trigger]
            after.contains_key(m) <==> store.contains_key(m) || samples.contains(m) by {
            assert(before.contains_key(m) <==> store.contains_key(m) || earlier.contains(m));
        }
        assert forall|m: PositionView| after.contains_key(m) implies #[trigger] after[m] == (
        if samples.contains(m) {
            m.epoch_seconds
        } else {
            store[m]
        }) by {
            if m != samples.last() {
                assert(before.contains_key(m));
                assert(after[m] == before[m]);
            }
        }
    }
}

/// Writing the same samples a second time leaves the store as the first
/// run left it: equal samples are one member with one score.
pub proof fn lemma_replay_changes_nothing(store: OrderedStore, samples: Seq<PositionView>)
    ensures
        store_all(store_all(store, samples), samples) == store_all(store, samples),
{
    let once = store_all(store, samples);
    let twice = store_all(once, samples);
    lemma_store_all_contents(store, samples);
    lemma_store_all_contents(once, samples);
    assert(twice =~= once) by {
        assert forall|m: PositionView| twice.contains_key(m) implies twice[m] == once[m] by {
            if samples.contains(m) {
            } else {
            }
        }
    }
}

/// A store whose members are scored by their time stays so whatever
/// samples are written, in whatever order runs interleave.
pub proof fn lemma_writes_keep_time_order(store: OrderedStore, samples: Seq<PositionView>)
    requires
        scored_by_time(store),
    ensures
        scored_by_time(store_all(store, samples)),
{
    lemma_store_all_contents(store, samples);
    assert forall|m: PositionView| store_all(store, samples).contains_key(m) implies #[trigger]
        store_all(store, samples)[m] == m.epoch_seconds by {
        if !samples.contains(m) {
            assert(store.contains_key(m));
        }
    }
}

} // verus!
