//! One update driven through propagation, as a state machine.
//!
//! The session decides which offset is propagated next and what becomes of
//! each outcome; the caller performs the propagation and hands the outcome
//! back. The cadence is fixed by the altitude of the first usable fix and
//! held for the rest of the session. A step that fails, or whose fix lies
//! off the globe, is counted. Before any usable fix such a step ends the
//! session, since no cadence is there to move on by; after one, whether it
//! ends the session is the session's `Strictness`.

use vstd::prelude::*;
use vstd::arithmetic::div_mod::lemma_fundamental_div_mod_converse;
use vstd::arithmetic::div_mod::lemma_mod_multiples_basic;
use crate::orbit::{has_checksum, initialize, yields_model, OrbitalModel};
use crate::policy::{
    determine_sampling_params, is_regime_cadence, policy_of, regime_of, SamplingPolicy, MAX_SAMPLES,
};
use crate::tle::{GeodeticFix, PositionView, SatellitePosition, TLEUpdate, NANOS_PER_SECOND};

verus! {

/// Latest start, in seconds since the Unix epoch, from which a whole day of
/// samples still fits the machine's integers.
pub const MAX_START_SECONDS: i64 = 9_223_372_036_854_689_407;

/// What a failed step does to the session.
#[derive(Debug, Clone, Copy, PartialEq, Eq, Structural)]
pub enum Strictness {
    /// The step is counted and the session moves on to the next offset.
    BestEffort,
    /// The session ends at once and gives up the samples it had.
    FailFast,
}

/// Where a session stands.
#[derive(Debug, Clone, Copy, PartialEq, Eq, Structural)]
pub enum SessionPhase {
    /// The elements were accepted and offsets remain to be propagated.
    Propagating,
    /// The session has ended; its samples are final.
    Completed,
    /// The elements were refused; the session never propagated.
    Rejected,
}

/// A propagation session in progress.
#[derive(Debug)]
pub struct PropagationSession {
    pub satellite_id: String,
    pub start_seconds: i64,
    pub start_nanos: u32,
    pub strictness: Strictness,
    pub phase: SessionPhase,
    pub policy: Option<SamplingPolicy>,
    /// Steps whose outcome was recorded.
    pub attempts: u64,
    /// Offset of the next step, in seconds after the start.
    pub elapsed_seconds: u64,
    /// Steps that failed.
    pub failures: u64,
    pub samples: Vec<SatellitePosition>,
}

/// A session as plain values.
pub struct SessionView {
    pub satellite_id: Seq<char>,
    pub start_seconds: int,
    pub start_nanos: int,
    pub strictness: Strictness,
    pub phase: SessionPhase,
    pub policy: Option<SamplingPolicy>,
    pub attempts: int,
    pub elapsed_seconds: int,
    pub failures: int,
    pub samples: Seq<PositionView>,
}

impl View for PropagationSession {
    type V = SessionView;

    open spec fn view(&self) -> SessionView {
        SessionView {
            satellite_id: self.satellite_id@,
            start_seconds: self.start_seconds as int,
            start_nanos: self.start_nanos as int,
            strictness: self.strictness,
            phase: self.phase,
            policy: self.policy,
            attempts: self.attempts as int,
            elapsed_seconds: self.elapsed_seconds as int,
            failures: self.failures as int,
            samples: self.samples@.map_values(|s: SatellitePosition| s@),
        }
    }
}

impl SessionView {
    /// The step between samples; one second while no cadence is fixed.
    pub open spec fn interval(self) -> int {
        match self.policy {
            Some(p) => p.interval_seconds as int,
            None => 1,
        }
    }

    /// A sample that this session may hold: it carries the session's
    /// identifier and sub-second part, lies on the globe, and stands a
    /// whole number of steps after the start, before the next offset.
    pub open spec fn holds(self, s: PositionView) -> bool {
        &&& s.id == self.satellite_id
        &&& s.subsec_nanos == self.start_nanos
        &&& s.wf()
        &&& self.start_seconds <= s.epoch_seconds <= self.start_seconds + self.elapsed_seconds
            - self.interval()
        &&& (s.epoch_seconds - self.start_seconds) % self.interval() == 0
    }

    /// The invariant of every session.
    pub open spec fn wf(self) -> bool {
        &&& 0 <= self.start_nanos < NANOS_PER_SECOND
        &&& i64::MIN <= self.start_seconds <= MAX_START_SECONDS
        &&& 0 <= self.failures <= self.attempts <= self.elapsed_seconds + 1
        &&& 0 <= self.elapsed_seconds <= 172_800
        &&& match self.strictness {
            Strictness::BestEffort => self.samples.len() + self.failures == self.attempts,
            Strictness::FailFast => if self.failures == 0 {
                self.samples.len() == self.attempts
            } else {
                self.failures == 1 && self.samples.len() == 0 && self.phase
                    == SessionPhase::Completed
            },
        }
        &&& match self.policy {
            None => {
                &&& self.elapsed_seconds == 0
                &&& self.samples.len() == 0
                &&& if self.attempts == 0 {
                    self.phase != SessionPhase::Completed
                } else {
                    self.attempts == 1 && self.failures == 1 && self.phase
                        == SessionPhase::Completed
                }
            },
            Some(p) => {
                &&& p.wf()
                &&& is_regime_cadence(p)
                &&& self.phase == SessionPhase::Propagating ==> self.samples.len() > 0
                &&& self.samples.len() > 0 ==> p == policy_of(
                    regime_of(self.samples[0].altitude),
                )
                &&& self.phase != SessionPhase::Rejected
                &&& self.attempts >= 1
                &&& self.elapsed_seconds == self.attempts * p.interval_seconds
                &&& self.elapsed_seconds - p.interval_seconds <= p.duration_seconds()
                &&& self.phase == SessionPhase::Propagating ==> self.elapsed_seconds
                    <= p.duration_seconds()
                &&& self.phase == SessionPhase::Completed && (self.failures == 0
                    || self.strictness == Strictness::BestEffort) ==> self.elapsed_seconds
                    > p.duration_seconds()
            },
        }
        &&& forall|i: int| 0 <= i < self.samples.len() ==> self.holds(#[trigger] self.samples[i])
        &&& forall|i: int, j: int|
            0 <= i < j < self.samples.len() ==> (#[trigger] self.samples[i]).epoch_seconds < (
            #[trigger] self.samples[j]).epoch_seconds
        &&& self.failures == 0 ==> forall|i: int|
            0 <= i < self.samples.len() ==> (#[trigger] self.samples[i]).epoch_seconds
                == self.start_seconds + i * self.interval()
    }

    /// The sample that a fix becomes at the session's next offset.
    pub open spec fn sample_at_next_offset(self, fix: GeodeticFix) -> PositionView {
        PositionView {
            id: self.satellite_id,
            epoch_seconds: self.start_seconds + self.elapsed_seconds,
            subsec_nanos: self.start_nanos,
            latitude: fix.latitude as int,
            longitude: fix.longitude as int,
            altitude: fix.altitude as int,
        }
    }

    /// The phase after a step that moved the next offset to `elapsed`.
    pub open spec fn phase_at(policy: SamplingPolicy, elapsed: int) -> SessionPhase {
        if elapsed > policy.duration_seconds() {
            SessionPhase::Completed
        } else {
            SessionPhase::Propagating
        }
    }

    /// The session after a step that gave a usable fix.
    pub open spec fn after_fix(self, fix: GeodeticFix) -> SessionView {
        let policy = match self.policy {
            Some(p) => p,
            None => policy_of(regime_of(fix.altitude as int)),
        };
        let elapsed = self.elapsed_seconds + policy.interval_seconds;
        SessionView {
            policy: Some(policy),
            attempts: self.attempts + 1,
            elapsed_seconds: elapsed,
            samples: self.samples.push(self.sample_at_next_offset(fix)),
            phase: Self::phase_at(policy, elapsed),
            ..self
        }
    }

    /// The session after a step that failed.
    pub open spec fn after_failure(self) -> SessionView {
        match self.policy {
            None => SessionView {
                attempts: self.attempts + 1,
                failures: self.failures + 1,
                phase: SessionPhase::Completed,
                ..self
            },
            Some(p) => {
                let elapsed = self.elapsed_seconds + p.interval_seconds;
                match self.strictness {
                    Strictness::BestEffort => SessionView {
                        attempts: self.attempts + 1,
                        failures: self.failures + 1,
                        elapsed_seconds: elapsed,
                        phase: Self::phase_at(p, elapsed),
                        ..self
                    },
                    Strictness::FailFast => SessionView {
                        attempts: self.attempts + 1,
                        failures: self.failures + 1,
                        elapsed_seconds: elapsed,
                        samples: Seq::empty(),
                        phase: SessionPhase::Completed,
                        ..self
                    },
                }
            },
        }
    }

    /// The session after one recorded outcome. A fix off the globe counts as
    /// a failure; a session that is not propagating ignores the outcome.
    pub open spec fn step(self, outcome: Option<GeodeticFix>) -> SessionView {
        if self.phase != SessionPhase::Propagating {
            self
        } else {
            match outcome {
                Some(fix) => if fix.in_range() {
                    self.after_fix(fix)
                } else {
                    self.after_failure()
                },
                None => self.after_failure(),
            }
        }
    }

    /// The session before its first step.
    pub open spec fn initial(
        satellite_id: Seq<char>,
        start_seconds: int,
        start_nanos: int,
        strictness: Strictness,
        accepted: bool,
    ) -> SessionView {
        SessionView {
            satellite_id,
            start_seconds,
            start_nanos,
            strictness,
            phase: if accepted {
                SessionPhase::Propagating
            } else {
                SessionPhase::Rejected
            },
            policy: None,
            attempts: 0,
            elapsed_seconds: 0,
            failures: 0,
            samples: Seq::empty(),
        }
    }
}

/// A step keeps the invariant.
pub proof fn lemma_step_keeps_wf(v: SessionView, outcome: Option<GeodeticFix>)
    requires
        v.wf(),
    ensures
        v.step(outcome).wf(),
{
    let w = v.step(outcome);
    if v.phase == SessionPhase::Propagating {
        let usable = outcome is Some && outcome->0.in_range();
        let step_len = w.interval();
        if v.policy is Some {
            assert(step_len == v.interval());
            assert((v.attempts + 1) * step_len == v.attempts * step_len + step_len)
                by (nonlinear_arith);
            assert forall|i: int| 0 <= i < v.samples.len() implies w.holds(
                #[trigger] v.samples[i],
            ) by {
                assert(v.holds(v.samples[i]));
            }
        } else {
            assert(v.samples.len() == 0);
            assert(1 * step_len == step_len);
        }
        if usable {
            let s = v.sample_at_next_offset(outcome->0);
            assert((v.elapsed_seconds) % step_len == 0) by {
                if v.policy is Some {
                    lemma_mod_multiples_basic(v.attempts, step_len);
                }
            }
            assert(w.holds(s));
            assert(w.samples[0] == (if v.samples.len() > 0 {
                v.samples[0]
            } else {
                s
            }));
            assert forall|i: int| 0 <= i < w.samples.len() implies w.holds(
                #[trigger] w.samples[i],
            ) by {
                if i < v.samples.len() {
                    assert(w.samples[i] == v.samples[i]);
                }
            }
            assert forall|i: int, j: int| 0 <= i < j < w.samples.len() implies (
            #[trigger] w.samples[i]).epoch_seconds < (#[trigger] w.samples[j]).epoch_seconds by {
                assert(v.holds(v.samples[i]));
                if j < v.samples.len() {
                    assert(w.samples[j] == v.samples[j]);
                }
            }
            if w.failures == 0 {
                assert forall|i: int| 0 <= i < w.samples.len() implies (
                #[trigger] w.samples[i]).epoch_seconds == w.start_seconds + i * step_len by {
                    if i < v.samples.len() {
                        assert(w.samples[i] == v.samples[i]);
                    } else {
                        assert(i == v.attempts);
                    }
                }
            }
        }
    }
}

/// The session after a run of recorded outcomes, first to last.
pub open spec fn run(v: SessionView, outcomes: Seq<Option<GeodeticFix>>) -> SessionView
    decreases outcomes.len(),
{
    if outcomes.len() == 0 {
        v
    } else {
        run(v, outcomes.drop_last()).step(outcomes.last())
    }
}

/// Every state that a session can reach keeps the invariant: whatever the
/// start within range, the strictness, the verdict on the elements and the
/// outcomes recorded.
pub proof fn lemma_every_reachable_session_is_wf(
    satellite_id: Seq<char>,
    start_seconds: int,
    start_nanos: int,
    strictness: Strictness,
    accepted: bool,
    outcomes: Seq<Option<GeodeticFix>>,
)
    requires
        i64::MIN <= start_seconds <= MAX_START_SECONDS,
        0 <= start_nanos < NANOS_PER_SECOND,
    ensures
        run(
            SessionView::initial(satellite_id, start_seconds, start_nanos, strictness, accepted),
            outcomes,
        ).wf(),
    decreases outcomes.len(),
{
    let first = SessionView::initial(
        satellite_id,
        start_seconds,
        start_nanos,
        strictness,
        accepted,
    );
    if outcomes.len() > 0 {
        lemma_every_reachable_session_is_wf(
            satellite_id,
            start_seconds,
            start_nanos,
            strictness,
            accepted,
            outcomes.drop_last(),
        );
        lemma_step_keeps_wf(run(first, outcomes.drop_last()), outcomes.last());
    }
}

/// Every session that can be reached holds, once it has a cadence, that of
/// one of the three regimes; while it holds samples, that of the regime of
/// its first sample's altitude; and never more than 1441 samples. The
/// cadence, once there, is kept by every later step.
pub proof fn lemma_reachable_session_keeps_first_cadence(
    satellite_id: Seq<char>,
    start_seconds: int,
    start_nanos: int,
    strictness: Strictness,
    accepted: bool,
    outcomes: Seq<Option<GeodeticFix>>,
    next: Option<GeodeticFix>,
)
    requires
        i64::MIN <= start_seconds <= MAX_START_SECONDS,
        0 <= start_nanos < NANOS_PER_SECOND,
    ensures
        ({
            let v = run(
                SessionView::initial(satellite_id, start_seconds, start_nanos, strictness, accepted),
                outcomes,
            );
            &&& v.policy is Some ==> is_regime_cadence(v.policy->0)
            &&& v.samples.len() > 0 ==> v.policy == Some(
                policy_of(regime_of(v.samples[0].altitude)),
            )
            &&& v.samples.len() <= MAX_SAMPLES
            &&& v.policy is Some ==> v.step(next).policy == v.policy
        }),
{
    lemma_every_reachable_session_is_wf(
        satellite_id,
        start_seconds,
        start_nanos,
        strictness,
        accepted,
        outcomes,
    );
    let v = run(
        SessionView::initial(satellite_id, start_seconds, start_nanos, strictness, accepted),
        outcomes,
    );
    if v.policy is Some {
        let p = v.policy->0;
        let step_len = p.interval_seconds as int;
        assert(v.attempts * step_len <= p.duration_seconds() + step_len);
        assert(v.attempts <= MAX_SAMPLES) by (nonlinear_arith)
            requires
                v.attempts * step_len <= p.duration_seconds() + step_len,
                (step_len == 60 && p.duration_seconds() == 86_400) || (step_len == 216
                    && p.duration_seconds() == 10_800) || (step_len == 8640
                    && p.duration_seconds() == 86_400),
        ;
    }
}

/// In a session without a failed step, sample `i` stands `i` steps after the
/// start, neighbours lie exactly one step apart, and a completed session
/// holds one sample for every whole step of the window, and one more.
pub proof fn lemma_unbroken_session_is_evenly_spaced(v: SessionView)
    requires
        v.wf(),
        v.failures == 0,
        v.policy is Some,
    ensures
        forall|i: int|
            0 <= i < v.samples.len() ==> (#[trigger] v.samples[i]).epoch_seconds
                == v.start_seconds + i * v.interval(),
        forall|i: int|
            0 <= i < v.samples.len() - 1 ==> v.samples[i + 1].epoch_seconds - (
            #[trigger] v.samples[i]).epoch_seconds == v.interval(),
        v.phase == SessionPhase::Completed ==> v.samples.len() == v.policy->0.full_count(),
{
    let step_len = v.interval();
    assert forall|i: int| 0 <= i < v.samples.len() - 1 implies v.samples[i + 1].epoch_seconds - (
    #[trigger] v.samples[i]).epoch_seconds == step_len by {
        assert(v.samples[i + 1].epoch_seconds == v.start_seconds + (i + 1) * step_len);
        assert((i + 1) * step_len == i * step_len + step_len) by (nonlinear_arith);
    }
    if v.phase == SessionPhase::Completed {
        lemma_full_count(v);
    }
}

/// A completed session with a cadence has recorded one step for every whole
/// interval of the window, and one more.
pub proof fn lemma_full_count(v: SessionView)
    requires
        v.wf(),
        v.policy is Some,
        v.phase == SessionPhase::Completed,
        v.failures == 0 || v.strictness == Strictness::BestEffort,
    ensures
        v.attempts == v.policy->0.full_count(),
        v.samples.len() + v.failures == v.policy->0.full_count(),
{
    let p = v.policy->0;
    let step_len = p.interval_seconds as int;
    let q = v.attempts - 1;
    let r = p.duration_seconds() - q * step_len;
    assert(v.attempts * step_len == q * step_len + step_len) by (nonlinear_arith)
        requires
            q == v.attempts - 1,
    ;
    lemma_fundamental_div_mod_converse(p.duration_seconds(), step_len, q, r);
}

/// Samples of any session stand in strictly increasing order of time, each
/// a whole number of steps after the start, and never outnumber the steps
/// recorded.
pub proof fn lemma_samples_are_ordered(v: SessionView, i: int, j: int)
    requires
        v.wf(),
        0 <= i < j < v.samples.len(),
    ensures
        v.samples[i].epoch_seconds < v.samples[j].epoch_seconds,
        (v.samples[j].epoch_seconds - v.samples[i].epoch_seconds) % v.interval() == 0,
        v.samples[j].epoch_seconds - v.samples[i].epoch_seconds >= v.interval(),
        v.samples.len() + v.failures <= v.attempts,
{
    let a = v.samples[i].epoch_seconds - v.start_seconds;
    let b = v.samples[j].epoch_seconds - v.start_seconds;
    let m = v.interval();
    assert(v.holds(v.samples[i]));
    assert(v.holds(v.samples[j]));
    vstd::arithmetic::div_mod::lemma_sub_mod_noop(b, a, m);
    vstd::arithmetic::div_mod::lemma_small_mod(0, m as nat);
    assert((b - a) % m == 0);
    if b - a < m {
        vstd::arithmetic::div_mod::lemma_small_mod((b - a) as nat, m as nat);
    }
}

impl PropagationSession {
    /// The invariant of every session.
    pub open spec fn wf(&self) -> bool {
        self@.wf()
    }

    /// Opens a session for one update. `accepted` says whether the update's
    /// elements were accepted; a session on refused elements is `Rejected`
    /// from the start and never asks for a step.
    pub fn begin(
        satellite_id: String,
        start_seconds: i64,
        start_nanos: u32,
        strictness: Strictness,
        accepted: bool,
    ) -> (r: PropagationSession)
        requires
            start_seconds <= MAX_START_SECONDS,
            start_nanos < NANOS_PER_SECOND,
        ensures
            r@ == SessionView::initial(
                satellite_id@,
                start_seconds as int,
                start_nanos as int,
                strictness,
                accepted,
            ),
            r.wf(),
    {
        let phase = if accepted {
            SessionPhase::Propagating
        } else {
            SessionPhase::Rejected
        };
        let r = PropagationSession {
            satellite_id,
            start_seconds,
            start_nanos,
            strictness,
            phase,
            policy: None,
            attempts: 0,
            elapsed_seconds: 0,
            failures: 0,
            samples: Vec::new(),
        };
        assert(r@.samples =~= Seq::empty());
        r
    }

    /// Opens a session for an update: builds the orbital model from the
    /// update's lines and begins, propagating if there is a model and
    /// rejected if there is none. There is a model exactly where the lines
    /// yield one, and never where a checksum does not match.
    pub fn open(update: &TLEUpdate, start_seconds: i64, start_nanos: u32, strictness: Strictness) -> (r:
        (PropagationSession, Option<OrbitalModel>))
        requires
            start_seconds <= MAX_START_SECONDS,
            start_nanos < NANOS_PER_SECOND,
        ensures
            r.0@ == SessionView::initial(
                update.id@,
                start_seconds as int,
                start_nanos as int,
                strictness,
                r.1 is Some,
            ),
            r.0.wf(),
            r.1 is Some <==> yields_model(update.line_1@, update.line_2@),
            !has_checksum(update.line_1@) || !has_checksum(update.line_2@) ==> r.1 is None,
    {
        let model = match initialize(
            update.line_1.as_str(),
            update.line_2.as_str(),
            update.id.as_str(),
        ) {
            Ok(model) => Some(model),
            Err(_) => None,
        };
        let session = Self::begin(
            update.id.clone(),
            start_seconds,
            start_nanos,
            strictness,
            model.is_some(),
        );
        (session, model)
    }

    /// The offset, in seconds after the start, that is to be propagated
    /// next; `None` once the session has ended or if it was rejected.
    pub fn next_offset(&self) -> (r: Option<u64>)
        ensures
            r == (if self.phase == SessionPhase::Propagating {
                Some(self.elapsed_seconds)
            } else {
                None
            }),
    {
        match self.phase {
            SessionPhase::Propagating => Some(self.elapsed_seconds),
            _ => None,
        }
    }

    /// Tells whether the session has ended, by completion or rejection.
    pub fn is_finished(&self) -> (r: bool)
        ensures
            r == (self.phase != SessionPhase::Propagating),
    {
        match self.phase {
            SessionPhase::Propagating => false,
            _ => true,
        }
    }

    /// Records the outcome of the step at `next_offset`: a fix, or `None`
    /// where propagation failed. A fix off the globe counts as a failed
    /// step. The first usable fix sets the cadence by its altitude. A failed
    /// step before any usable fix ends the session under either strictness,
    /// with no samples: no cadence is there yet to move on by. A later
    /// failed step is skipped under `BestEffort`; under `FailFast` it ends
    /// the session and discards its samples. A session that is not
    /// propagating stays as it is.
    pub fn record(&mut self, outcome: Option<GeodeticFix>)
        requires
            old(self).wf(),
        ensures
            final(self)@ == old(self)@.step(outcome),
            final(self).wf(),
    {
        proof {
            lemma_step_keeps_wf(self@, outcome);
        }
        if self.is_finished() {
            return ;
        }
        match outcome {
            Some(fix) => {
                if fix.is_in_range() {
                    self.record_fix(fix);
                } else {
                    self.record_failure();
                }
            },
            None => {
                self.record_failure();
            },
        }
    }

    fn record_fix(&mut self, fix: GeodeticFix)
        requires
            old(self).wf(),
            old(self).phase == SessionPhase::Propagating,
            fix.in_range(),
        ensures
            final(self)@ == old(self)@.after_fix(fix),
    {
        let policy = match self.policy {
            Some(p) => p,
            None => determine_sampling_params(fix.altitude),
        };
        let ghost before = self@;
        let sample = SatellitePosition {
            id: self.satellite_id.clone(),
            epoch_seconds: self.start_seconds + (self.elapsed_seconds as i64),
            subsec_nanos: self.start_nanos,
            latitude: fix.latitude,
            longitude: fix.longitude,
            altitude: fix.altitude,
        };
        assert(sample@ == before.sample_at_next_offset(fix));
        self.samples.push(sample);
        self.policy = Some(policy);
        self.attempts = self.attempts + 1;
        self.elapsed_seconds = self.elapsed_seconds + policy.interval_seconds;
        self.phase = if self.elapsed_seconds > policy.duration_minutes * 60 {
            SessionPhase::Completed
        } else {
            SessionPhase::Propagating
        };
        assert(self@.samples =~= before.samples.push(sample@));
    }

    fn record_failure(&mut self)
        requires
            old(self).wf(),
            old(self).phase == SessionPhase::Propagating,
        ensures
            final(self)@ == old(self)@.after_failure(),
    {
        let ghost before = self@;
        self.attempts = self.attempts + 1;
        self.failures = self.failures + 1;
        match self.policy {
            None => {
                self.phase = SessionPhase::Completed;
                assert(self@.samples =~= before.samples);
            },
            Some(p) => {
                self.elapsed_seconds = self.elapsed_seconds + p.interval_seconds;
                match self.strictness {
                    Strictness::BestEffort => {
                        self.phase = if self.elapsed_seconds > p.duration_minutes * 60 {
                            SessionPhase::Completed
                        } else {
                            SessionPhase::Propagating
                        };
                        assert(self@.samples =~= before.samples);
                    },
                    Strictness::FailFast => {
                        self.samples = Vec::new();
                        self.phase = SessionPhase::Completed;
                        assert(self@.samples =~= Seq::empty());
                    },
                }
            },
        }
    }

    /// Ends the session and hands out its samples, in order of time.
    pub fn into_samples(self) -> (r: Vec<SatellitePosition>)
        ensures
            r@.map_values(|s: SatellitePosition| s@) == self@.samples,
    {
        self.samples
    }
}

} // verus!
