//! The process-aware control engine: one verified step per tick.
//!
//! Each tick folds the activity bit into the load window, takes note of
//! the dominant GPU process when a fresh scan is supplied, and drives the
//! mode machine: learning a new process, applying or re-checking a stored
//! profile, or resting idle. The surrounding program only reads the
//! hardware bit, scans procfs when asked, performs the returned actions,
//! and sleeps.

use crate::constants::{
    HIGH_LOAD_THRESHOLD, LEARNING_DURATION_US, LOW_LOAD_THRESHOLD, MIN_FREQ_MHZ,
    PROCESS_STABILITY_US, PROCESS_UPDATE_INTERVAL_US, SAMPLE_WINDOW_SIZE,
    SATURATION_HISTORY_SIZE,
};
use crate::governor::{average_of, GovernorMode, ProcessAwareGovernor, NUM_CANDIDATE_FREQS};
use crate::load_monitor::{spec_load_percent, GpuLoadMonitor};
use crate::process_detection::{basename, is_excluded_name, GpuProcess};
use crate::process_monitor::{monitor_update_post, ProcessMonitor};
use crate::profile_db::{str_eq, ProcessDatabase, ProcessProfile};
use vstd::prelude::*;

verus! {

/// What the surrounding program must do after a step: push a frequency to
/// the actuator, and rewrite the profile file when the store changed.
pub struct EngineStep {
    pub set_freq: Option<u16>,
    pub save_profiles: bool,
}

/// The complete state of the process-aware governor variant.
pub struct GovernorEngine {
    pub load_monitor: GpuLoadMonitor,
    pub monitor: ProcessMonitor,
    pub governor: ProcessAwareGovernor,
    pub db: ProcessDatabase,
    pub tracked_process: Option<String>,
}

impl GovernorEngine {
    /// The name of the process the engine currently serves.
    pub closed spec fn tracked_name(&self) -> Option<Seq<char>> {
        match self.tracked_process {
            Some(ref n) => Some(n@),
            None => None,
        }
    }

    /// All parts well-formed; an idle governor rests at the floor clock;
    /// an excluded process is never the one served.
    pub open spec fn wf(&self) -> bool {
        &&& self.load_monitor.wf()
        &&& self.load_monitor.capacity() == SAMPLE_WINDOW_SIZE
        &&& self.monitor.wf()
        &&& self.governor.wf()
        &&& self.db.wf()
        &&& (self.governor.mode == GovernorMode::Idle ==> self.governor.current_freq
            == MIN_FREQ_MHZ)
        &&& self.tracked_name() == self.monitor.current_name()
        &&& (self.tracked_name() matches Some(n) ==> !is_excluded_name(basename(n)))
    }

    /// The load window after this tick's activity bit.
    pub open spec fn spec_window_after(&self, busy: bool) -> Seq<bool> {
        if self.load_monitor.samples().len() < SAMPLE_WINDOW_SIZE {
            self.load_monitor.samples().push(busy)
        } else {
            self.load_monitor.samples().drop_first().push(busy)
        }
    }

    /// The busy share this tick computes, in hundredths of a percent.
    pub open spec fn spec_tick_load(&self, busy: bool) -> int {
        spec_load_percent(self.spec_window_after(busy))
    }

    /// The governor's load history after this tick's sample.
    pub open spec fn spec_history_after(&self, busy: bool) -> Seq<u32> {
        let load = self.spec_tick_load(busy) as u32;
        if self.governor.load_history@.len() < SATURATION_HISTORY_SIZE {
            self.governor.load_history@.push(load)
        } else {
            self.governor.load_history@.drop_first().push(load)
        }
    }

    /// A fresh engine: empty window, nothing tracked, idle at the floor.
    pub fn new(now_us: u64) -> (r: Self)
        ensures
            r.wf(),
            r.tracked_name() is None,
            r.governor.mode == GovernorMode::Idle,
            r.db.view_map() == Map::<Seq<char>, (u16, u32, usize)>::empty(),
    {
        Self {
            load_monitor: GpuLoadMonitor::new(SAMPLE_WINDOW_SIZE),
            monitor: ProcessMonitor::new(now_us),
            governor: ProcessAwareGovernor::new(now_us),
            db: ProcessDatabase::new(),
            tracked_process: None,
        }
    }

    /// Seed the profile store with one record read from the backing file.
    pub fn load_profile(&mut self, profile: ProcessProfile)
        requires
            old(self).wf(),
        ensures
            final(self).wf(),
            final(self).db.view_map() == old(self).db.view_map().insert(
                profile.name@,
                profile.data(),
            ),
            final(self).tracked_name() == old(self).tracked_name(),
            final(self).governor == old(self).governor,
    {
        self.db.set(profile);
    }

    /// Whether the caller should scan the process table before the next
    /// step.
    pub fn needs_scan(&self, now_us: u64) -> (r: bool)
        ensures
            r == (now_us >= self.monitor.last_update() + PROCESS_UPDATE_INTERVAL_US),
    {
        self.monitor.needs_scan(now_us)
    }

    /// One control tick.
    ///
    /// `gui_busy` is this tick's activity bit; `scan` carries the process
    /// table when the caller scanned it (only after `needs_scan` said so).
    /// The engine leaves Learning or Re-evaluating for Applied on the same
    /// process only once the learning window has elapsed and the process
    /// has been stable long enough.
    pub fn step(&mut self, gui_busy: bool, scan: Option<&Vec<GpuProcess>>, now_us: u64) -> (r:
        EngineStep)
        requires
            old(self).wf(),
            scan is Some ==> now_us >= old(self).monitor.last_update()
                + PROCESS_UPDATE_INTERVAL_US,
        ensures
            final(self).wf(),
            // every tick folds the activity bit into the load window
            final(self).load_monitor.samples() == old(self).spec_window_after(gui_busy),
            // a supplied scan drives the monitor exactly as one scan must;
            // without one the monitor rests
            scan matches Some(s) ==> monitor_update_post(
                old(self).monitor,
                final(self).monitor,
                s@,
                now_us,
            ),
            scan is None ==> final(self).monitor == old(self).monitor && final(self).tracked_name() == old(self).tracked_name(),
            // the engine serves exactly the process the monitor tracks
            final(self).tracked_name() == final(self).monitor.current_name(),
            r.set_freq matches Some(f) ==> f == final(self).governor.current_freq,
            // the engine leaves Learning or Re-evaluating for Applied on the
            // same process only once the learning window has elapsed and the
            // process has been stable long enough
            (old(self).governor.mode == GovernorMode::Learning || old(self).governor.mode
                == GovernorMode::Reevaluating) && final(self).governor.mode
                == GovernorMode::Applied && final(self).tracked_name() == old(self).tracked_name()
                && (old(self).tracked_name() is Some) ==> now_us >= old(self).governor.mode_start_us + LEARNING_DURATION_US && (final(self).monitor.started_at() matches Some(t) && now_us >= t + PROCESS_STABILITY_US),
            old(self).governor.mode == GovernorMode::Applied && final(self).governor.mode
                == GovernorMode::Reevaluating ==> (final(self).monitor.started_at() matches Some(
                t,
            ) && now_us >= t + PROCESS_STABILITY_US),
            // a change of the dominant process forces the matching entry:
            // a stored profile is applied, an unknown process starts a
            // learning phase at the floor, an empty field drops to idle
            ({
                let d = final(self).monitor.current_name();
                &&& (d != old(self).tracked_name() && d is Some ==> ({
                    let n = d->Some_0;
                    if old(self).db.view_map().contains_key(n) {
                        final(self).governor.mode == GovernorMode::Applied && final(self).governor.current_freq == old(self).db.view_map()[n].0 && r.set_freq
                            == Some(old(self).db.view_map()[n].0)
                    } else {
                        final(self).governor.mode == GovernorMode::Learning && final(self).governor.current_freq == MIN_FREQ_MHZ && r.set_freq == Some(
                            MIN_FREQ_MHZ,
                        )
                    }
                }))
                &&& (d != old(self).tracked_name() && d is None ==> final(self).governor.mode
                    == GovernorMode::Idle && r.set_freq == Some(MIN_FREQ_MHZ))
            }),
            // a finished, stable learning phase on the served process must
            // close: the best candidate is stored under its name and applied
            (old(self).governor.mode == GovernorMode::Learning || old(self).governor.mode
                == GovernorMode::Reevaluating) && final(self).monitor.current_name() == old(self).tracked_name() && (old(self).tracked_name() is Some) && old(self).spec_window_after(
                gui_busy,
            ).len() == SAMPLE_WINDOW_SIZE && now_us >= old(self).governor.mode_start_us
                + LEARNING_DURATION_US && (final(self).monitor.started_at() matches Some(t)
                && now_us >= t + PROCESS_STABILITY_US) && (old(self).governor.learning_stats
                is Some) && (exists|i: int|
                0 <= i < NUM_CANDIDATE_FREQS && old(self).governor.learning_stats->Some_0.eligible(i)) ==> ({
                let key = old(self).tracked_name()->Some_0;
                &&& r.save_profiles
                &&& final(self).governor.mode == GovernorMode::Applied
                &&& final(self).db.view_map().contains_key(key)
                &&& final(self).db.view_map()[key].0 == final(self).governor.current_freq
                &&& r.set_freq == Some(final(self).governor.current_freq)
            }),
            // sustained saturation or underload on a stable, known process
            // forces a re-evaluation from its stored frequency
            old(self).governor.mode == GovernorMode::Applied && final(self).monitor.current_name() == old(self).tracked_name() && (old(self).tracked_name()
                is Some) && old(self).spec_window_after(gui_busy).len() == SAMPLE_WINDOW_SIZE
                && old(self).spec_history_after(gui_busy).len() >= SATURATION_HISTORY_SIZE && (
            average_of(old(self).spec_history_after(gui_busy)) > HIGH_LOAD_THRESHOLD || average_of(
                old(self).spec_history_after(gui_busy),
            ) < LOW_LOAD_THRESHOLD) && (final(self).monitor.started_at() matches Some(t) && now_us
                >= t + PROCESS_STABILITY_US) && old(self).db.view_map().contains_key(
                old(self).tracked_name()->Some_0,
            ) ==> final(self).governor.mode == GovernorMode::Reevaluating && final(self).governor.current_freq == old(self).db.view_map()[old(self).tracked_name()->Some_0].0,
            !r.save_profiles ==> final(self).db.view_map() == old(self).db.view_map(),
    {
        self.load_monitor.add_sample(gui_busy);

        let detected: Option<String> = match scan {
            Some(procs) => self.monitor.update(procs, now_us),
            None => self.monitor.current(),
        };
        let ghost dv = detected.deep_view();
        proof {
            assert(dv == self.monitor.current_name());
            self.monitor.lemma_tracked_not_excluded();
        }

        let mut set_freq: Option<u16> = None;
        let mut save_profiles: bool = false;

        let changed: bool = match (&detected, &self.tracked_process) {
            (Some(d), Some(t)) => !str_eq(d.as_str(), t.as_str()),
            (None, None) => false,
            _ => true,
        };

        if changed {
            match detected {
                Some(new_process) => {
                    // a learning phase for the old process is closed and kept
                    match self.governor.mode {
                        GovernorMode::Learning | GovernorMode::Reevaluating => {
                            if let Some(ref old_process) = self.tracked_process {
                                if let Some(profile) = self.governor.finalize_learning() {
                                    let named = ProcessProfile::new(
                                        clone_string(old_process),
                                        profile.optimal_freq,
                                        profile.comfort_score,
                                        profile.samples_count,
                                    );
                                    self.db.set(named);
                                    save_profiles = true;
                                }
                            }
                        },
                        _ => {},
                    }
                    let known: Option<u16> = match self.db.get(new_process.as_str()) {
                        Some(profile) => Some(profile.optimal_freq),
                        None => None,
                    };
                    match known {
                        Some(freq) => {
                            self.governor.apply_known_frequency(freq, now_us);
                            set_freq = Some(freq);
                        },
                        None => {
                            self.governor.start_learning(MIN_FREQ_MHZ, now_us);
                            set_freq = Some(MIN_FREQ_MHZ);
                        },
                    }
                    proof {
                        assert(dv == Some(new_process@));
                    }
                    self.tracked_process = Some(new_process);
                },
                None => {
                    self.governor.enter_idle(now_us);
                    set_freq = Some(MIN_FREQ_MHZ);
                    self.tracked_process = None;
                },
            }
        }
        if self.load_monitor.is_full() {
            let load = self.load_monitor.load_percent();
            self.governor.add_load_sample(load);
            let ghost g_add = self.governor;
            self.governor.note_learning_frequency(load, now_us);
            let ghost g_note = self.governor;
            match self.governor.mode {
                GovernorMode::Idle => {},
                GovernorMode::Applied => {
                    let stressed = self.governor.check_saturation()
                        || self.governor.check_underload();
                    if stressed && self.monitor.is_process_stable(now_us) {
                        let base: Option<u16> = match &self.tracked_process {
                            Some(name) => match self.db.get(name.as_str()) {
                                Some(profile) => Some(profile.optimal_freq),
                                None => None,
                            },
                            None => None,
                        };
                        if let Some(base_freq) = base {
                            self.governor.start_reevaluation(base_freq, now_us);
                        }
                    }
                },
                GovernorMode::Learning | GovernorMode::Reevaluating => {
                    if let Some(new_freq) = self.governor.try_adjust_learning(now_us) {
                        set_freq = Some(new_freq);
                    }
                    proof {
                        // samples only accumulate within a tick, so a
                        // candidate eligible before the tick still is
                        if !changed && old(self).governor.learning_stats is Some {
                            let ls0 = old(self).governor.learning_stats->Some_0;
                            let lsa = g_add.learning_stats->Some_0;
                            let lsn = g_note.learning_stats->Some_0;
                            assert(self.governor.learning_stats == g_note.learning_stats);
                            assert forall|i: int|
                                0 <= i < NUM_CANDIDATE_FREQS && ls0.eligible(i) implies (
                            self.governor.learning_stats->Some_0).eligible(i) by {
                                assert(lsa.samples_at(i).len() >= ls0.samples_at(i).len());
                                assert(lsn.samples_at(i).len() >= lsa.samples_at(i).len());
                            }
                        }
                    }
                    let learning_done = now_us >= self.governor.mode_start_us && now_us
                        - self.governor.mode_start_us >= LEARNING_DURATION_US;
                    if learning_done && self.monitor.is_process_stable(now_us) {
                        let name: Option<String> = match &self.tracked_process {
                            Some(n) => Some(clone_string(n)),
                            None => None,
                        };
                        if let Some(process_name) = name {
                            if let Some(profile) = self.governor.finalize_learning() {
                                let freq = profile.optimal_freq;
                                let named = ProcessProfile::new(
                                    process_name,
                                    freq,
                                    profile.comfort_score,
                                    profile.samples_count,
                                );
                                self.db.set(named);
                                save_profiles = true;
                                self.governor.apply_known_frequency(freq, now_us);
                                set_freq = Some(freq);
                            }
                        }
                    }
                },
            }
        }
        proof {
            if changed && (old(self).tracked_name() is Some) {
                assert(self.tracked_name() != old(self).tracked_name());
            }
        }
        EngineStep { set_freq, save_profiles }
    }

    /// The name of the process currently served, for display.
    pub fn served_process(&self) -> (r: Option<&String>)
        ensures
            r matches Some(n) ==> self.tracked_name() == Some(n@),
            r is None ==> (self.tracked_name() is None),
    {
        match &self.tracked_process {
            Some(n) => Some(n),
            None => None,
        }
    }
}

/// A cloned `String` reads the same.
fn clone_string(s: &String) -> (r: String)
    ensures
        r@ == s@,
{
    s.clone()
}

} // verus!
