//! Per-process adaptive governor: learning statistics and mode state.
//!
//! While a process is being learned, every candidate frequency keeps its
//! dwell time and the loads observed at it; a comfort score — how close the
//! average load comes to the ideal — picks the winner. The governor itself
//! is a small mode machine over that data. Loads are in hundredths of a
//! percent, times in microseconds.

use crate::constants::{
    FREQ_STEP_MHZ, HIGH_LOAD_THRESHOLD, IDEAL_LOAD, LEARNING_HISTORY_SIZE, LOW_LOAD_THRESHOLD,
    MAX_FREQ_MHZ, MIN_CHANGE_INTERVAL_US, MIN_FREQ_MHZ, MIN_SAMPLES_FOR_BEST,
    SATURATION_HISTORY_SIZE,
};
use crate::profile_db::ProcessProfile;
use std::collections::VecDeque;
use vstd::prelude::*;

verus! {

/// Number of candidate frequencies between the lowest and highest clock,
/// one every step.
pub const NUM_CANDIDATE_FREQS: usize = 34;

/// Upper bound on stored load samples per frequency, so sums stay small.
pub const LOAD_SAMPLES_CAP: usize = 0x1000_0000;

/// Sum of a sequence of load samples.
pub open spec fn sum_of(s: Seq<u32>) -> int
    decreases s.len(),
{
    if s.len() == 0 {
        0
    } else {
        sum_of(s.drop_last()) + s.last()
    }
}

/// All samples lie on the load scale.
pub open spec fn loads_bounded(s: Seq<u32>) -> bool {
    forall|i: int| 0 <= i < s.len() ==> #[trigger] s[i] <= 10000
}

/// Truncating mean of a sample sequence; 0 when empty.
pub open spec fn average_of(s: Seq<u32>) -> int {
    if s.len() == 0 {
        0
    } else {
        sum_of(s) / s.len() as int
    }
}

/// Comfort of an average load: full marks at the ideal load, one point of
/// comfort lost per point of deviation, floored at zero.
pub open spec fn comfort_of(avg: int) -> int {
    let dev = if avg >= IDEAL_LOAD {
        avg - IDEAL_LOAD
    } else {
        IDEAL_LOAD - avg
    };
    if dev >= 10000 {
        0
    } else {
        10000 - dev
    }
}

/// The candidate frequency at a table position, MHz.
pub open spec fn candidate_freq(i: int) -> int {
    MIN_FREQ_MHZ + i * FREQ_STEP_MHZ
}

/// Whether a frequency is one of the learned candidates.
pub open spec fn is_candidate(f: u16) -> bool {
    MIN_FREQ_MHZ <= f <= MAX_FREQ_MHZ && (f - MIN_FREQ_MHZ) % (FREQ_STEP_MHZ as int) == 0
}

/// Table position of a candidate frequency.
pub open spec fn freq_index(f: u16) -> int {
    (f - MIN_FREQ_MHZ) / (FREQ_STEP_MHZ as int)
}

/// Table slot of a frequency; -1 when it is no candidate.
pub open spec fn candidate_slot(f: u16) -> int {
    if is_candidate(f) {
        freq_index(f)
    } else {
        -1
    }
}

/// Dwell time after a period closing at `now_us`: the time since the
/// entry accrues, a clock that stepped backwards credits nothing, and
/// the total saturates rather than wraps.
pub open spec fn accrued_time(time: u64, entry: Option<u64>, now_us: u64) -> u64 {
    match entry {
        Some(t) => {
            let delta = if now_us >= t {
                now_us - t
            } else {
                0
            };
            if time + delta > u64::MAX {
                u64::MAX
            } else {
                (time + delta) as u64
            }
        },
        None => time,
    }
}

/// Dwell time and observed loads for one candidate frequency.
#[derive(Debug, Clone)]
pub struct FrequencyStats {
    time_spent_us: u64,
    load_samples: Vec<u32>,
    last_entry: Option<u64>,
}

impl FrequencyStats {
    /// The loads observed while at this frequency.
    pub closed spec fn samples(&self) -> Seq<u32> {
        self.load_samples@
    }

    /// Accumulated dwell time, microseconds.
    pub closed spec fn time_spent(&self) -> u64 {
        self.time_spent_us
    }

    /// When the governor last entered this frequency, if it is still there.
    pub closed spec fn entry_time(&self) -> Option<u64> {
        self.last_entry
    }

    /// Samples stay on the load scale and under the cap.
    pub closed spec fn wf(&self) -> bool {
        &&& loads_bounded(self.load_samples@)
        &&& self.load_samples@.len() <= LOAD_SAMPLES_CAP
    }

    /// A fresh record with no time and no samples.
    pub fn new(_freq_mhz: u16) -> (r: Self)
        ensures
            r.wf(),
            r.samples() == Seq::<u32>::empty(),
            r.time_spent() == 0,
            r.entry_time() is None,
    {
        Self { time_spent_us: 0, load_samples: Vec::new(), last_entry: None }
    }

    /// Mark the governor as dwelling here from `now_us` on.
    pub fn enter(&mut self, now_us: u64)
        ensures
            final(self).entry_time() == Some(now_us),
            final(self).samples() == old(self).samples(),
            final(self).time_spent() == old(self).time_spent(),
            old(self).wf() ==> final(self).wf(),
    {
        self.last_entry = Some(now_us);
    }

    /// Close the dwell period at `now_us`, crediting the elapsed time.
    /// A clock that stepped backwards credits nothing; the accumulated
    /// time saturates rather than wraps.
    pub fn exit(&mut self, now_us: u64)
        ensures
            final(self).entry_time() is None,
            final(self).samples() == old(self).samples(),
            old(self).wf() ==> final(self).wf(),
            final(self).time_spent() == accrued_time(
                old(self).time_spent(),
                old(self).entry_time(),
                now_us,
            ),
    {
        if let Some(entry) = self.last_entry {
            let delta: u64 = if now_us >= entry {
                now_us - entry
            } else {
                0
            };
            if delta > u64::MAX - self.time_spent_us {
                self.time_spent_us = u64::MAX;
            } else {
                self.time_spent_us = self.time_spent_us + delta;
            }
            self.last_entry = None;
        }
    }

    /// Record one load observed at this frequency. Beyond the sample cap
    /// further samples are dropped to keep the average computable.
    pub fn add_load_sample(&mut self, load: u32)
        requires
            load <= 10000,
            old(self).wf(),
        ensures
            final(self).wf(),
            final(self).samples() == if old(self).samples().len() < LOAD_SAMPLES_CAP {
                old(self).samples().push(load)
            } else {
                old(self).samples()
            },
            final(self).time_spent() == old(self).time_spent(),
            final(self).entry_time() == old(self).entry_time(),
    {
        if self.load_samples.len() < LOAD_SAMPLES_CAP {
            self.load_samples.push(load);
        }
    }

    /// Truncating mean of the recorded loads; 0 without samples.
    pub fn average_load(&self) -> (r: u32)
        requires
            self.wf(),
        ensures
            r == average_of(self.samples()),
            r <= 10000,
    {
        average_vec(&self.load_samples)
    }

    /// Comfort score of this frequency, in hundredths of a point.
    pub fn comfort_score(&self) -> (r: u32)
        requires
            self.wf(),
        ensures
            r == comfort_of(average_of(self.samples())),
    {
        let avg = self.average_load();
        let dev: u32 = if avg >= IDEAL_LOAD {
            avg - IDEAL_LOAD
        } else {
            IDEAL_LOAD - avg
        };
        10000 - dev
    }

    /// Number of recorded loads.
    pub fn samples_len(&self) -> (r: usize)
        ensures
            r == self.samples().len(),
    {
        self.load_samples.len()
    }
}

/// Truncating mean of a vector of loads.
fn average_vec(v: &Vec<u32>) -> (r: u32)
    requires
        loads_bounded(v@),
        v@.len() <= LOAD_SAMPLES_CAP,
    ensures
        r == average_of(v@),
        r <= 10000,
{
    let n = v.len();
    if n == 0 {
        return 0;
    }
    let mut acc: u64 = 0;
    let mut i: usize = 0;
    while i < n
        invariant
            0 <= i <= n,
            n == v@.len(),
            loads_bounded(v@),
            n <= LOAD_SAMPLES_CAP,
            acc == sum_of(v@.subrange(0, i as int)),
            acc <= 10000 * i,
        decreases n - i,
    {
        proof {
            assert(v@.subrange(0, i as int + 1).drop_last() =~= v@.subrange(0, i as int));
            assert(v@.subrange(0, i as int + 1).last() == v@[i as int]);
        }
        acc = acc + (v[i] as u64);
        i = i + 1;
    }
    proof {
        assert(v@.subrange(0, n as int) =~= v@);
        assert(acc / (n as u64) <= 10000) by (nonlinear_arith)
            requires
                acc <= 10000 * n,
                n >= 1,
        ;
    }
    (acc / (n as u64)) as u32
}

/// Statistics gathered over all candidate frequencies during one learning
/// or re-evaluation phase.
pub struct LearningStats {
    stats: Vec<FrequencyStats>,
    current_freq: Option<u16>,
}

impl LearningStats {
    /// The per-frequency records, lowest candidate first.
    pub closed spec fn stats_seq(&self) -> Seq<FrequencyStats> {
        self.stats@
    }

    /// Loads recorded at table position `i`.
    pub open spec fn samples_at(&self, i: int) -> Seq<u32> {
        self.stats_seq()[i].samples()
    }

    /// The frequency currently dwelt at, if any.
    pub closed spec fn current(&self) -> Option<u16> {
        self.current_freq
    }

    /// Table position of the currently dwelt frequency; -1 when none is
    /// dwelt at or it is no candidate.
    pub open spec fn current_candidate_index(&self) -> int {
        match self.current() {
            Some(f) => candidate_slot(f),
            None => -1,
        }
    }

    /// Dwell time accumulated at table position `i`, microseconds.
    pub open spec fn time_at(&self, i: int) -> u64 {
        self.stats_seq()[i].time_spent()
    }

    /// The open dwell's entry clock at table position `i`, if one is open.
    pub open spec fn entry_at(&self, i: int) -> Option<u64> {
        self.stats_seq()[i].entry_time()
    }

    /// One well-formed record per candidate frequency.
    pub closed spec fn wf(&self) -> bool {
        &&& self.stats@.len() == NUM_CANDIDATE_FREQS
        &&& forall|i: int| 0 <= i < self.stats@.len() ==> (#[trigger] self.stats@[i]).wf()
    }

    /// A fresh table: every candidate frequency, no samples, no dwell.
    pub fn new() -> (r: Self)
        ensures
            r.wf(),
            r.current() is None,
            forall|i: int|
                0 <= i < NUM_CANDIDATE_FREQS ==> #[trigger] r.samples_at(i) == Seq::<
                    u32,
                >::empty(),
            forall|i: int| 0 <= i < NUM_CANDIDATE_FREQS ==> #[trigger] r.time_at(i) == 0,
            forall|i: int| 0 <= i < NUM_CANDIDATE_FREQS ==> (#[trigger] r.entry_at(i)) is None,
    {
        let mut stats: Vec<FrequencyStats> = Vec::new();
        let mut freq: u16 = MIN_FREQ_MHZ;
        let mut i: usize = 0;
        while i < NUM_CANDIDATE_FREQS
            invariant
                0 <= i <= NUM_CANDIDATE_FREQS,
                stats@.len() == i,
                MIN_FREQ_MHZ <= freq <= MAX_FREQ_MHZ,
                forall|j: int|
                    0 <= j < i ==> (#[trigger] stats@[j]).wf() && stats@[j].samples() == Seq::<
                        u32,
                    >::empty() && stats@[j].time_spent() == 0 && stats@[j].entry_time() is None,
            decreases NUM_CANDIDATE_FREQS - i,
        {
            stats.push(FrequencyStats::new(freq));
            if freq <= MAX_FREQ_MHZ - FREQ_STEP_MHZ {
                freq = freq + FREQ_STEP_MHZ;
            }
            i = i + 1;
        }
        Self { stats, current_freq: None }
    }

    /// Table position of a frequency, when it is a candidate.
    fn index_of(freq: u16) -> (r: Option<usize>)
        ensures
            r matches Some(i) ==> is_candidate(freq) && i == freq_index(freq) && i
                < NUM_CANDIDATE_FREQS,
            r is None ==> !is_candidate(freq),
    {
        if freq < MIN_FREQ_MHZ || freq > MAX_FREQ_MHZ {
            return None;
        }
        let off = freq - MIN_FREQ_MHZ;
        if off % FREQ_STEP_MHZ != 0 {
            return None;
        }
        let i = (off / FREQ_STEP_MHZ) as usize;
        proof {
            assert(i < NUM_CANDIDATE_FREQS) by (nonlinear_arith)
                requires
                    i == (freq - MIN_FREQ_MHZ) / (FREQ_STEP_MHZ as int),
                    freq <= MAX_FREQ_MHZ,
                    MIN_FREQ_MHZ <= freq,
                    MAX_FREQ_MHZ == 2000,
                    MIN_FREQ_MHZ == 350,
                    FREQ_STEP_MHZ == 50,
                    NUM_CANDIDATE_FREQS == 34,
            ;
        }
        Some(i)
    }

    /// Move the dwell to `freq`: the previous frequency's dwell closes and
    /// its time accrues, the new one's opens at `now_us` and records the
    /// load seen on arrival. A frequency outside the candidate table is
    /// tracked without a record.
    pub fn set_frequency(&mut self, freq: u16, load: u32, now_us: u64)
        requires
            old(self).wf(),
            load <= 10000,
        ensures
            final(self).wf(),
            final(self).current() == Some(freq),
            forall|j: int|
                0 <= j < NUM_CANDIDATE_FREQS && j != old(self).current_candidate_index() && j
                    != candidate_slot(freq) ==> #[trigger] final(self).stats_seq()[j] == old(self).stats_seq()[j],
            old(self).current_candidate_index() >= 0 && old(self).current_candidate_index()
                != candidate_slot(freq) ==> ({
                let p = old(self).current_candidate_index();
                &&& final(self).entry_at(p) is None
                &&& final(self).time_at(p) == accrued_time(
                    old(self).time_at(p),
                    old(self).entry_at(p),
                    now_us,
                )
                &&& final(self).samples_at(p) == old(self).samples_at(p)
            }),
            is_candidate(freq) ==> ({
                let i = freq_index(freq);
                &&& final(self).entry_at(i) == Some(now_us)
                &&& final(self).samples_at(i) == (if old(self).samples_at(i).len()
                    < LOAD_SAMPLES_CAP {
                    old(self).samples_at(i).push(load)
                } else {
                    old(self).samples_at(i)
                })
                &&& final(self).time_at(i) == (if old(self).current_candidate_index() == i {
                    accrued_time(old(self).time_at(i), old(self).entry_at(i), now_us)
                } else {
                    old(self).time_at(i)
                })
            }),
    {
        if let Some(prev) = self.current_freq {
            if let Some(pi) = Self::index_of(prev) {
                let stat = &mut self.stats[pi];
                stat.exit(now_us);
            }
        }
        if let Some(ni) = Self::index_of(freq) {
            let stat = &mut self.stats[ni];
            stat.enter(now_us);
            stat.add_load_sample(load);
        }
        self.current_freq = Some(freq);
    }

    /// Record a load at the frequency currently dwelt at, if it is a
    /// candidate; every other record, and the dwell clocks, stay as they
    /// were.
    pub fn add_load_sample(&mut self, load: u32)
        requires
            old(self).wf(),
            load <= 10000,
        ensures
            final(self).wf(),
            final(self).current() == old(self).current(),
            forall|j: int|
                0 <= j < NUM_CANDIDATE_FREQS && j != old(self).current_candidate_index()
                    ==> #[trigger] final(self).stats_seq()[j] == old(self).stats_seq()[j],
            old(self).current_candidate_index() >= 0 ==> ({
                let c = old(self).current_candidate_index();
                &&& final(self).samples_at(c) == (if old(self).samples_at(c).len()
                    < LOAD_SAMPLES_CAP {
                    old(self).samples_at(c).push(load)
                } else {
                    old(self).samples_at(c)
                })
                &&& final(self).time_at(c) == old(self).time_at(c)
                &&& final(self).entry_at(c) == old(self).entry_at(c)
            }),
    {
        if let Some(freq) = self.current_freq {
            if let Some(i) = Self::index_of(freq) {
                let stat = &mut self.stats[i];
                stat.add_load_sample(load);
            }
        }
    }

    /// A table position with enough samples to be judged.
    pub open spec fn eligible(&self, i: int) -> bool {
        self.samples_at(i).len() >= MIN_SAMPLES_FOR_BEST
    }

    /// Comfort score of a table position.
    pub open spec fn comfort_at(&self, i: int) -> int {
        comfort_of(average_of(self.samples_at(i)))
    }

    /// The frequency whose recorded loads sat most comfortably, among the
    /// candidates with enough samples; ties go to the lower frequency.
    /// Yields the frequency, its comfort score and its sample count, or
    /// nothing when no candidate has enough samples.
    pub fn get_best_frequency(&self) -> (r: Option<(u16, u32, usize)>)
        requires
            self.wf(),
        ensures
            (r is Some) <==> exists|i: int| 0 <= i < NUM_CANDIDATE_FREQS && self.eligible(i),
            r matches Some(t) ==> exists|i: int|
                {
                    &&& 0 <= i < NUM_CANDIDATE_FREQS
                    &&& self.eligible(i)
                    &&& t.0 == candidate_freq(i)
                    &&& t.1 == self.comfort_at(i)
                    &&& t.2 == self.samples_at(i).len()
                    &&& forall|j: int|
                        0 <= j < NUM_CANDIDATE_FREQS && self.eligible(j) ==> #[trigger] self
                            .comfort_at(j) <= t.1 && (self.comfort_at(j) == t.1 ==> i <= j)
                },
    {
        let mut best: Option<(usize, u32)> = None;
        let mut i: usize = 0;
        while i < NUM_CANDIDATE_FREQS
            invariant
                self.wf(),
                0 <= i <= NUM_CANDIDATE_FREQS,
                best is None ==> forall|j: int| 0 <= j < i ==> !self.eligible(j),
                best matches Some(b) ==> {
                    &&& 0 <= b.0 < i
                    &&& self.eligible(b.0 as int)
                    &&& b.1 == self.comfort_at(b.0 as int)
                    &&& forall|j: int|
                        0 <= j < i && self.eligible(j) ==> #[trigger] self.comfort_at(j) <= b.1
                            && (self.comfort_at(j) == b.1 ==> b.0 <= j)
                },
            decreases NUM_CANDIDATE_FREQS - i,
        {
            let stat = &self.stats[i];
            if stat.samples_len() >= MIN_SAMPLES_FOR_BEST {
                let c = stat.comfort_score();
                match best {
                    None => {
                        best = Some((i, c));
                    },
                    Some(b) => {
                        if c > b.1 {
                            best = Some((i, c));
                        }
                    },
                }
            }
            i = i + 1;
        }
        match best {
            None => None,
            Some(b) => {
                let freq: u16 = MIN_FREQ_MHZ + (b.0 as u16) * FREQ_STEP_MHZ;
                let stat = &self.stats[b.0];
                let samples = stat.samples_len();
                proof {
                    let gi = b.0 as int;
                    assert(freq == candidate_freq(gi));
                    assert(self.eligible(gi) && b.1 == self.comfort_at(gi) && samples
                        == self.samples_at(gi).len());
                }
                Some((freq, b.1, samples))
            },
        }
    }
}

/// The four operating modes of the process-aware governor.
#[derive(Debug, Clone, Copy, PartialEq, Eq, Structural)]
pub enum GovernorMode {
    /// No tracked GPU process; the clock rests at the floor.
    Idle,
    /// A known profile is applied.
    Applied,
    /// A new process's best frequency is being learned.
    Learning,
    /// A known profile is being re-checked from its stored frequency.
    Reevaluating,
}

/// The per-process governor: current clock, mode, load history and, while
/// learning, the per-frequency statistics.
pub struct ProcessAwareGovernor {
    pub current_freq: u16,
    pub mode: GovernorMode,
    pub mode_start_us: u64,
    pub last_change_us: u64,
    pub load_history: VecDeque<u32>,
    pub learning_stats: Option<LearningStats>,
    pub base_freq_for_reevaluation: Option<u16>,
}

impl ProcessAwareGovernor {
    /// History samples stay on the load scale and within the window; the
    /// learning table, when present, is well-formed.
    pub open spec fn wf(&self) -> bool {
        &&& loads_bounded(self.load_history@)
        &&& self.load_history@.len() <= SATURATION_HISTORY_SIZE
        &&& (self.learning_stats matches Some(ls) ==> ls.wf())
    }

    /// When the governor last stepped the frequency while learning.
    pub open spec fn last_change(&self) -> u64 {
        self.last_change_us
    }

    /// An idle governor resting at the floor clock.
    pub fn new(now_us: u64) -> (r: Self)
        ensures
            r.wf(),
            r.current_freq == MIN_FREQ_MHZ,
            r.mode == GovernorMode::Idle,
            r.mode_start_us == now_us,
            r.last_change() == now_us,
            r.load_history@ == Seq::<u32>::empty(),
            r.learning_stats is None,
    {
        Self {
            current_freq: MIN_FREQ_MHZ,
            mode: GovernorMode::Idle,
            mode_start_us: now_us,
            last_change_us: now_us,
            load_history: VecDeque::with_capacity(SATURATION_HISTORY_SIZE),
            learning_stats: None,
            base_freq_for_reevaluation: None,
        }
    }

    /// Begin learning a new process from `starting_freq`.
    pub fn start_learning(&mut self, starting_freq: u16, now_us: u64)
        ensures
            final(self).wf(),
            final(self).mode == GovernorMode::Learning,
            final(self).mode_start_us == now_us,
            final(self).current_freq == starting_freq,
            final(self).learning_stats is Some,
            final(self).learning_stats->Some_0.current() is None,
            forall|i: int|
                0 <= i < NUM_CANDIDATE_FREQS ==> #[trigger] final(self).learning_stats->Some_0.samples_at(i) == Seq::<u32>::empty(),
            forall|i: int|
                0 <= i < NUM_CANDIDATE_FREQS ==> #[trigger] final(self).learning_stats->Some_0.time_at(i) == 0,
            forall|i: int|
                0 <= i < NUM_CANDIDATE_FREQS ==> (#[trigger] final(self).learning_stats->Some_0.entry_at(i)) is None,
            final(self).load_history@ == Seq::<u32>::empty(),
            final(self).last_change() == old(self).last_change(),
    {
        self.mode = GovernorMode::Learning;
        self.mode_start_us = now_us;
        self.current_freq = starting_freq;
        self.learning_stats = Some(LearningStats::new());
        self.load_history.clear();
    }

    /// Re-check a known profile, stepping from its stored frequency.
    pub fn start_reevaluation(&mut self, base_freq: u16, now_us: u64)
        ensures
            final(self).wf(),
            final(self).mode == GovernorMode::Reevaluating,
            final(self).mode_start_us == now_us,
            final(self).current_freq == base_freq,
            final(self).base_freq_for_reevaluation == Some(base_freq),
            final(self).learning_stats is Some,
            final(self).learning_stats->Some_0.current() is None,
            forall|i: int|
                0 <= i < NUM_CANDIDATE_FREQS ==> #[trigger] final(self).learning_stats->Some_0.samples_at(i) == Seq::<u32>::empty(),
            forall|i: int|
                0 <= i < NUM_CANDIDATE_FREQS ==> #[trigger] final(self).learning_stats->Some_0.time_at(i) == 0,
            forall|i: int|
                0 <= i < NUM_CANDIDATE_FREQS ==> (#[trigger] final(self).learning_stats->Some_0.entry_at(i)) is None,
            final(self).load_history@ == Seq::<u32>::empty(),
            final(self).last_change() == old(self).last_change(),
    {
        self.mode = GovernorMode::Reevaluating;
        self.mode_start_us = now_us;
        self.current_freq = base_freq;
        self.base_freq_for_reevaluation = Some(base_freq);
        self.learning_stats = Some(LearningStats::new());
        self.load_history.clear();
    }

    /// Apply a known optimal frequency directly.
    pub fn apply_known_frequency(&mut self, freq: u16, now_us: u64)
        ensures
            final(self).wf(),
            final(self).mode == GovernorMode::Applied,
            final(self).mode_start_us == now_us,
            final(self).current_freq == freq,
            final(self).learning_stats is None,
            final(self).load_history@ == Seq::<u32>::empty(),
            final(self).last_change() == old(self).last_change(),
    {
        self.mode = GovernorMode::Applied;
        self.mode_start_us = now_us;
        self.current_freq = freq;
        self.learning_stats = None;
        self.load_history.clear();
    }

    /// Drop to the floor clock with nothing tracked.
    pub fn enter_idle(&mut self, now_us: u64)
        ensures
            final(self).wf(),
            final(self).mode == GovernorMode::Idle,
            final(self).mode_start_us == now_us,
            final(self).current_freq == MIN_FREQ_MHZ,
            final(self).learning_stats is None,
            final(self).load_history@ == Seq::<u32>::empty(),
            final(self).last_change() == old(self).last_change(),
    {
        self.mode = GovernorMode::Idle;
        self.mode_start_us = now_us;
        self.current_freq = MIN_FREQ_MHZ;
        self.learning_stats = None;
        self.load_history.clear();
    }

    /// Append a load to the history window, evicting the oldest beyond the
    /// window size, and feed the learning table when one is open.
    pub fn add_load_sample(&mut self, load: u32)
        requires
            old(self).wf(),
            load <= 10000,
        ensures
            final(self).wf(),
            final(self).load_history@ == (if old(self).load_history@.len()
                < SATURATION_HISTORY_SIZE {
                old(self).load_history@.push(load)
            } else {
                old(self).load_history@.drop_first().push(load)
            }),
            final(self).mode == old(self).mode,
            final(self).current_freq == old(self).current_freq,
            final(self).mode_start_us == old(self).mode_start_us,
            final(self).last_change() == old(self).last_change(),
            final(self).learning_stats is Some <==> old(self).learning_stats is Some,
            old(self).learning_stats is Some ==> ({
                let ls0 = old(self).learning_stats->Some_0;
                let ls1 = final(self).learning_stats->Some_0;
                &&& ls1.current() == ls0.current()
                &&& forall|j: int|
                    0 <= j < NUM_CANDIDATE_FREQS && j != ls0.current_candidate_index()
                        ==> #[trigger] ls1.stats_seq()[j] == ls0.stats_seq()[j]
                &&& (ls0.current_candidate_index() >= 0 ==> ({
                    let c = ls0.current_candidate_index();
                    &&& ls1.samples_at(c) == (if ls0.samples_at(c).len() < LOAD_SAMPLES_CAP {
                        ls0.samples_at(c).push(load)
                    } else {
                        ls0.samples_at(c)
                    })
                    &&& ls1.time_at(c) == ls0.time_at(c)
                    &&& ls1.entry_at(c) == ls0.entry_at(c)
                }))
            }),
    {
        if self.load_history.len() >= SATURATION_HISTORY_SIZE {
            self.load_history.pop_front();
        }
        self.load_history.push_back(load);
        if let Some(stats) = &mut self.learning_stats {
            stats.add_load_sample(load);
        }
        proof {
            if old(self).load_history@.len() >= SATURATION_HISTORY_SIZE {
                assert(self.load_history@ =~= old(self).load_history@.drop_first().push(load));
            }
        }
    }

    /// While a learning table is open, move its dwell to the governor's
    /// current frequency and record the load seen there.
    pub fn note_learning_frequency(&mut self, load: u32, now_us: u64)
        requires
            old(self).wf(),
            load <= 10000,
        ensures
            final(self).wf(),
            final(self).mode == old(self).mode,
            final(self).current_freq == old(self).current_freq,
            final(self).mode_start_us == old(self).mode_start_us,
            final(self).last_change() == old(self).last_change(),
            final(self).load_history@ == old(self).load_history@,
            final(self).learning_stats is Some <==> old(self).learning_stats is Some,
            old(self).learning_stats is Some ==> ({
                let ls0 = old(self).learning_stats->Some_0;
                let ls1 = final(self).learning_stats->Some_0;
                &&& ls1.current() == Some(old(self).current_freq)
                &&& forall|j: int|
                    0 <= j < NUM_CANDIDATE_FREQS && j != candidate_slot(old(self).current_freq)
                        && j != ls0.current_candidate_index() ==> #[trigger] ls1.samples_at(j)
                        == ls0.samples_at(j)
                &&& (ls0.current_candidate_index() >= 0 && ls0.current_candidate_index()
                    != candidate_slot(old(self).current_freq) ==> ls1.samples_at(
                    ls0.current_candidate_index(),
                ) == ls0.samples_at(ls0.current_candidate_index()))
                &&& (is_candidate(old(self).current_freq) ==> ls1.samples_at(
                    freq_index(old(self).current_freq),
                ) == (if ls0.samples_at(freq_index(old(self).current_freq)).len()
                    < LOAD_SAMPLES_CAP {
                    ls0.samples_at(freq_index(old(self).current_freq)).push(load)
                } else {
                    ls0.samples_at(freq_index(old(self).current_freq))
                }))
            }),
    {
        let freq = self.current_freq;
        if let Some(stats) = &mut self.learning_stats {
            stats.set_frequency(freq, load, now_us);
        }
    }

    /// Truncating mean of the load history; 0 when empty.
    pub fn average_load(&self) -> (r: u32)
        requires
            self.wf(),
        ensures
            r == average_of(self.load_history@),
            r <= 10000,
    {
        let n = self.load_history.len();
        if n == 0 {
            return 0;
        }
        let mut acc: u64 = 0;
        let mut i: usize = 0;
        while i < n
            invariant
                0 <= i <= n,
                n == self.load_history@.len(),
                loads_bounded(self.load_history@),
                n <= SATURATION_HISTORY_SIZE,
                acc == sum_of(self.load_history@.subrange(0, i as int)),
                acc <= 10000 * i,
            decreases n - i,
        {
            proof {
                assert(self.load_history@.subrange(0, i as int + 1).drop_last()
                    =~= self.load_history@.subrange(0, i as int));
                assert(self.load_history@.subrange(0, i as int + 1).last()
                    == self.load_history@[i as int]);
            }
            acc = acc + (self.load_history[i] as u64);
            i = i + 1;
        }
        proof {
            assert(self.load_history@.subrange(0, n as int) =~= self.load_history@);
            assert(acc / (n as u64) <= 10000) by (nonlinear_arith)
                requires
                    acc <= 10000 * n,
                    n >= 1,
            ;
        }
        (acc / (n as u64)) as u32
    }

    /// Samples a step decision needs: a short window while learning, the
    /// full saturation window otherwise.
    pub open spec fn required_samples(&self) -> int {
        match self.mode {
            GovernorMode::Learning | GovernorMode::Reevaluating => LEARNING_HISTORY_SIZE as int,
            _ => SATURATION_HISTORY_SIZE as int,
        }
    }

    /// Whether the clock should step up: room above, enough history, and
    /// an average at or over the high threshold.
    pub fn should_increase(&self) -> (r: bool)
        requires
            self.wf(),
        ensures
            r == (self.current_freq < MAX_FREQ_MHZ && self.load_history@.len()
                >= self.required_samples() && average_of(self.load_history@)
                >= HIGH_LOAD_THRESHOLD),
    {
        let required: usize = match self.mode {
            GovernorMode::Learning | GovernorMode::Reevaluating => LEARNING_HISTORY_SIZE,
            _ => SATURATION_HISTORY_SIZE,
        };
        self.current_freq < MAX_FREQ_MHZ && self.load_history.len() >= required
            && self.average_load() >= HIGH_LOAD_THRESHOLD
    }

    /// Whether the clock should step down: room below, enough history, and
    /// an average at or under the low threshold.
    pub fn should_decrease(&self) -> (r: bool)
        requires
            self.wf(),
        ensures
            r == (self.current_freq > MIN_FREQ_MHZ && self.load_history@.len()
                >= self.required_samples() && average_of(self.load_history@)
                <= LOW_LOAD_THRESHOLD),
    {
        let required: usize = match self.mode {
            GovernorMode::Learning | GovernorMode::Reevaluating => LEARNING_HISTORY_SIZE,
            _ => SATURATION_HISTORY_SIZE,
        };
        self.current_freq > MIN_FREQ_MHZ && self.load_history.len() >= required
            && self.average_load() <= LOW_LOAD_THRESHOLD
    }

    /// The frequency one step towards the load band, clamped to the
    /// hardware range; unchanged when no step is due.
    pub open spec fn spec_step_target(&self) -> u16 {
        if self.current_freq < MAX_FREQ_MHZ && self.load_history@.len() >= self.required_samples()
            && average_of(self.load_history@) >= HIGH_LOAD_THRESHOLD {
            if self.current_freq + FREQ_STEP_MHZ <= MAX_FREQ_MHZ {
                (self.current_freq + FREQ_STEP_MHZ) as u16
            } else {
                MAX_FREQ_MHZ
            }
        } else if self.current_freq > MIN_FREQ_MHZ && self.load_history@.len()
            >= self.required_samples() && average_of(self.load_history@) <= LOW_LOAD_THRESHOLD {
            if self.current_freq >= FREQ_STEP_MHZ && self.current_freq - FREQ_STEP_MHZ
                >= MIN_FREQ_MHZ {
                (self.current_freq - FREQ_STEP_MHZ) as u16
            } else {
                MIN_FREQ_MHZ
            }
        } else {
            self.current_freq
        }
    }

    /// While learning, step the clock by one increment when the recent
    /// history asks for it and the hold-off interval has passed. On a
    /// step the history clears and the hold-off restarts.
    pub fn try_adjust_learning(&mut self, now_us: u64) -> (r: Option<u16>)
        requires
            old(self).wf(),
        ensures
            final(self).wf(),
            now_us < old(self).last_change() || now_us - old(self).last_change()
                < MIN_CHANGE_INTERVAL_US ==> r is None && *final(self) == *old(self),
            r matches Some(f) ==> {
                &&& now_us >= old(self).last_change() + MIN_CHANGE_INTERVAL_US
                &&& f == old(self).spec_step_target()
                &&& f != old(self).current_freq
                &&& final(self).current_freq == f
                &&& final(self).last_change() == now_us
                &&& final(self).load_history@ == Seq::<u32>::empty()
                &&& final(self).mode == old(self).mode
                &&& final(self).mode_start_us == old(self).mode_start_us
                &&& final(self).learning_stats == old(self).learning_stats
            },
            r is None && now_us >= old(self).last_change() + MIN_CHANGE_INTERVAL_US
                ==> *final(self) == *old(self) && old(self).spec_step_target() == old(self).current_freq,
    {
        if now_us < self.last_change_us || now_us - self.last_change_us < MIN_CHANGE_INTERVAL_US {
            return None;
        }
        let new_freq: u16 = if self.should_increase() {
            if self.current_freq + FREQ_STEP_MHZ <= MAX_FREQ_MHZ {
                self.current_freq + FREQ_STEP_MHZ
            } else {
                MAX_FREQ_MHZ
            }
        } else if self.should_decrease() {
            if self.current_freq >= FREQ_STEP_MHZ && self.current_freq - FREQ_STEP_MHZ
                >= MIN_FREQ_MHZ {
                self.current_freq - FREQ_STEP_MHZ
            } else {
                MIN_FREQ_MHZ
            }
        } else {
            return None;
        };
        if new_freq != self.current_freq {
            self.current_freq = new_freq;
            self.last_change_us = now_us;
            self.load_history.clear();
            Some(new_freq)
        } else {
            None
        }
    }

    /// Close the learning phase: the best-scored candidate becomes a
    /// profile whose name the caller fills in. Nothing comes out when no
    /// learning table is open or no candidate gathered enough samples.
    pub fn finalize_learning(&mut self) -> (r: Option<ProcessProfile>)
        requires
            old(self).wf(),
        ensures
            *final(self) == *old(self),
            r is None <==> (old(self).learning_stats is None || !exists|i: int|
                0 <= i < NUM_CANDIDATE_FREQS && old(self).learning_stats->Some_0.eligible(i)),
            r matches Some(p) ==> {
                &&& old(self).learning_stats matches Some(ls)
                &&& p.name@ == Seq::<char>::empty()
                &&& p.samples_count >= MIN_SAMPLES_FOR_BEST
                &&& exists|i: int|
                    {
                        &&& 0 <= i < NUM_CANDIDATE_FREQS
                        &&& ls.eligible(i)
                        &&& p.optimal_freq == candidate_freq(i)
                        &&& p.comfort_score == ls.comfort_at(i)
                        &&& p.samples_count == ls.samples_at(i).len()
                        &&& forall|j: int|
                            0 <= j < NUM_CANDIDATE_FREQS && ls.eligible(j) ==> #[trigger] ls
                                .comfort_at(j) <= p.comfort_score && (ls.comfort_at(j)
                                == p.comfort_score ==> i <= j)
                    }
            },
    {
        let stats = match &self.learning_stats {
            Some(s) => s,
            None => {
                return None;
            },
        };
        match stats.get_best_frequency() {
            Some((best_freq, comfort, samples)) => {
                Some(ProcessProfile::new(String::new(), best_freq, comfort, samples))
            },
            None => None,
        }
    }

    /// The governor sits in Applied with a full window averaging over the
    /// high threshold.
    pub fn check_saturation(&self) -> (r: bool)
        requires
            self.wf(),
        ensures
            r == (self.mode == GovernorMode::Applied && self.load_history@.len()
                >= SATURATION_HISTORY_SIZE && average_of(self.load_history@)
                > HIGH_LOAD_THRESHOLD),
    {
        match self.mode {
            GovernorMode::Applied => self.load_history.len() >= SATURATION_HISTORY_SIZE
                && self.average_load() > HIGH_LOAD_THRESHOLD,
            _ => false,
        }
    }

    /// The governor sits in Applied with a full window averaging under the
    /// low threshold.
    pub fn check_underload(&self) -> (r: bool)
        requires
            self.wf(),
        ensures
            r == (self.mode == GovernorMode::Applied && self.load_history@.len()
                >= SATURATION_HISTORY_SIZE && average_of(self.load_history@) < LOW_LOAD_THRESHOLD),
    {
        match self.mode {
            GovernorMode::Applied => self.load_history.len() >= SATURATION_HISTORY_SIZE
                && self.average_load() < LOW_LOAD_THRESHOLD,
            _ => false,
        }
    }
}

} // verus!
