//! The ramp governor: continuous closed-loop frequency control.
//!
//! Every tick one activity bit enters the sliding window and the burst
//! shift register. The floating target frequency, kept in thousandths of
//! a MHz, ramps up under load or a burst, down when idle, and drifts
//! slowly down in the stable band when energy optimization is on; it is
//! then clamped to the allowed range. An actuator write is due only when
//! the adjustment interval has elapsed or a burst fired, and then only
//! for a change that crosses one of the significance thresholds.

use crate::load_monitor::{spec_load_percent, GpuLoadMonitor};
use vstd::prelude::*;

verus! {

/// Resolved tuning of the ramp governor. Times are in microseconds,
/// rates in thousandths of a MHz per millisecond, loads in hundredths of
/// a percent, frequencies in MHz.
#[derive(Clone, Copy, Debug)]
pub struct RampConfig {
    pub sample_interval_us: u16,
    pub adjustment_interval_us: u64,
    pub finetune_interval_us: u64,
    pub log_interval_secs: u64,
    pub optimize_interval_us: u64,
    pub window_samples: usize,
    pub burst_mask: Option<u64>,
    pub ramp_rate_milli: u64,
    pub ramp_rate_burst_milli: u64,
    pub small_change: u16,
    pub significant_change: u16,
    pub up_thresh: u32,
    pub down_thresh: u32,
    pub min_freq: u16,
    pub max_freq: u16,
}

impl RampConfig {
    /// The bounds arithmetic relies on: a live sample cadence, a window,
    /// an ordered threshold band and frequency range, and rates small
    /// enough that one tick's ramp cannot overflow.
    pub open spec fn wf(&self) -> bool {
        &&& self.sample_interval_us >= 1
        &&& self.window_samples >= 1
        &&& self.min_freq <= self.max_freq
        &&& self.down_thresh <= self.up_thresh
        &&& self.up_thresh <= 10000
        &&& self.ramp_rate_milli <= 0x1_0000_0000
        &&& self.ramp_rate_burst_milli <= 0x1_0000_0000
    }
}

/// Sliding activity window of the ramp governor.
pub struct GpuStats {
    inner: GpuLoadMonitor,
}

impl GpuStats {
    /// The recorded samples, oldest first.
    pub closed spec fn samples(&self) -> Seq<bool> {
        self.inner.samples()
    }

    /// The window size the stats were created with.
    pub closed spec fn window_size(&self) -> usize {
        self.inner.capacity()
    }

    /// The counter matches the window contents.
    pub closed spec fn wf(&self) -> bool {
        self.inner.wf()
    }

    /// An empty window of `window_size` samples.
    pub fn new(window_size: usize) -> (r: Self)
        requires
            window_size >= 1,
        ensures
            r.wf(),
            r.samples() == Seq::<bool>::empty(),
            r.window_size() == window_size,
    {
        Self { inner: GpuLoadMonitor::new(window_size) }
    }

    /// Append one activity bit, evicting the oldest sample when full.
    pub fn add_sample(&mut self, is_active: bool)
        requires
            old(self).wf(),
        ensures
            final(self).wf(),
            final(self).window_size() == old(self).window_size(),
            final(self).samples() == if old(self).samples().len() < old(self).window_size() {
                old(self).samples().push(is_active)
            } else {
                old(self).samples().drop_first().push(is_active)
            },
    {
        self.inner.add_sample(is_active);
    }

    /// Busy share of the window, in hundredths of a percent.
    pub fn gpu_percent(&self) -> (r: u32)
        requires
            self.wf(),
        ensures
            r == spec_load_percent(self.samples()),
            r <= 10000,
    {
        self.inner.load_percent()
    }
}

/// Rate limiter for the governor's log lines.
pub struct LogThrottle {
    last_log_us: Option<u64>,
    min_interval_secs: u64,
}

impl LogThrottle {
    /// When a line was last allowed; nothing before the first one.
    pub closed spec fn last_log(&self) -> Option<u64> {
        self.last_log_us
    }

    /// The configured spacing, seconds.
    pub closed spec fn interval_secs(&self) -> u64 {
        self.min_interval_secs
    }

    /// A throttle whose first request always passes.
    pub fn new(min_interval_secs: u64) -> (r: Self)
        ensures
            r.interval_secs() == min_interval_secs,
            r.last_log() is None,
    {
        Self { last_log_us: None, min_interval_secs }
    }

    /// Whether a line is allowed: always on the first request, then only
    /// after a full interval; allowing one restarts the interval.
    pub fn should_log(&mut self, now_us: u64) -> (r: bool)
        ensures
            r == (match old(self).last_log() {
                Some(last) => now_us >= last + old(self).interval_secs() * 1_000_000,
                None => true,
            }),
            r ==> final(self).last_log() == Some(now_us),
            !r ==> final(self).last_log() == old(self).last_log(),
            final(self).interval_secs() == old(self).interval_secs(),
    {
        let due = match self.last_log_us {
            None => true,
            Some(last) => now_us >= last && {
                let elapsed = now_us - last;
                (elapsed as u128) >= (self.min_interval_secs as u128) * 1_000_000
            },
        };
        if due {
            self.last_log_us = Some(now_us);
            true
        } else {
            false
        }
    }
}

/// Distance between two frequencies, MHz.
pub open spec fn spec_abs_diff(a: u16, b: u16) -> int {
    if a >= b {
        a - b
    } else {
        b - a
    }
}

/// The burst register after one more sample.
pub open spec fn shifted(reg: u64, busy: bool) -> u64 {
    (reg << 1) | (if busy {
        1u64
    } else {
        0u64
    })
}

/// A burst: the configured mask of most recent samples all active.
pub open spec fn is_burst(reg: u64, mask: Option<u64>) -> bool {
    match mask {
        Some(m) => reg & m == m,
        None => false,
    }
}

/// One actuator write decided by the ramp governor, with everything a log
/// line reports about it.
#[derive(Clone, Copy, Debug, PartialEq, Eq, Structural)]
pub struct RampDecision {
    /// The frequency to publish, MHz.
    pub freq: u16,
    /// The frequency before this write, MHz.
    pub prev_freq: u16,
    /// The window's busy share at the decision, hundredths of a percent.
    pub gpu_load: u32,
    /// A burst escalation forced the write.
    pub burst_up: bool,
    /// The target ran into the range boundary.
    pub hit_bounds: bool,
    /// The change crossed the significance threshold.
    pub big_change: bool,
    /// A fine-tune write: small change after the fine-tune interval.
    pub finetune: bool,
    /// The energy-optimizing drift was active this tick.
    pub can_optimize: bool,
    /// The log throttle allowed a line for this write.
    pub log: bool,
}

/// The ramp governor's complete state.
pub struct RampGovernor {
    cfg: RampConfig,
    stats: GpuStats,
    burst_reg: u64,
    curr_freq: u16,
    target_milli: u64,
    last_adjustment_us: u64,
    last_finetune_us: u64,
    last_freq_change_us: u64,
    throttle: LogThrottle,
}

impl RampGovernor {
    /// The configuration the governor runs under.
    pub closed spec fn config(&self) -> RampConfig {
        self.cfg
    }

    /// The activity window.
    pub closed spec fn window(&self) -> Seq<bool> {
        self.stats.samples()
    }

    /// The burst shift register.
    pub closed spec fn burst_reg(&self) -> u64 {
        self.burst_reg
    }

    /// The last frequency written, MHz.
    pub closed spec fn current_freq(&self) -> u16 {
        self.curr_freq
    }

    /// The floating target, thousandths of a MHz.
    pub closed spec fn target_milli(&self) -> u64 {
        self.target_milli
    }

    /// When a write was last considered.
    pub closed spec fn last_adjustment(&self) -> u64 {
        self.last_adjustment_us
    }

    /// When a write last happened (fine-tune clock).
    pub closed spec fn last_finetune(&self) -> u64 {
        self.last_finetune_us
    }

    /// When the frequency last changed (stability clock).
    pub closed spec fn last_freq_change(&self) -> u64 {
        self.last_freq_change_us
    }

    /// Configuration bounds hold and the state sits inside them.
    pub closed spec fn wf(&self) -> bool {
        &&& self.cfg.wf()
        &&& self.stats.wf()
        &&& self.stats.window_size() == self.cfg.window_samples
        &&& self.cfg.min_freq * 1000 <= self.target_milli <= self.cfg.max_freq * 1000
        &&& self.cfg.min_freq <= self.curr_freq <= self.cfg.max_freq
    }

    /// A governor resting at the lowest frequency.
    pub fn new(cfg: RampConfig, now_us: u64) -> (r: Self)
        requires
            cfg.wf(),
        ensures
            r.wf(),
            r.config() == cfg,
            r.window() == Seq::<bool>::empty(),
            r.burst_reg() == 0,
            r.current_freq() == cfg.min_freq,
            r.target_milli() == cfg.min_freq * 1000,
            r.last_adjustment() == now_us,
            r.last_finetune() == now_us,
            r.last_freq_change() == now_us,
    {
        Self {
            cfg,
            stats: GpuStats::new(cfg.window_samples),
            burst_reg: 0,
            curr_freq: cfg.min_freq,
            target_milli: (cfg.min_freq as u64) * 1000,
            last_adjustment_us: now_us,
            last_finetune_us: now_us,
            last_freq_change_us: now_us,
            throttle: LogThrottle::new(cfg.log_interval_secs),
        }
    }

    /// The window after this tick's sample.
    pub open spec fn spec_window_after(&self, busy: bool) -> Seq<bool> {
        if self.window().len() < self.config().window_samples {
            self.window().push(busy)
        } else {
            self.window().drop_first().push(busy)
        }
    }

    /// The busy share this tick decides on.
    pub open spec fn spec_load(&self, busy: bool) -> int {
        spec_load_percent(self.spec_window_after(busy))
    }

    /// Whether this tick's sample completes a burst.
    pub open spec fn spec_burst(&self, busy: bool) -> bool {
        is_burst(shifted(self.burst_reg(), busy), self.config().burst_mask)
    }

    /// Whether the energy-optimizing drift applies this tick: enabled,
    /// load inside the stable band with a margin below the top, and no
    /// frequency change for at least the optimize interval.
    pub open spec fn spec_can_optimize(&self, busy: bool, now_us: u64) -> bool {
        let load = self.spec_load(busy);
        &&& self.config().optimize_interval_us > 0
        &&& self.config().down_thresh <= load <= self.config().up_thresh
        &&& now_us >= self.last_freq_change() + self.config().optimize_interval_us
        &&& load < self.config().up_thresh - 200
    }

    /// The target after this tick's ramp and clamp, thousandths of a MHz.
    pub open spec fn spec_target_after(&self, busy: bool, now_us: u64) -> int {
        let t = self.target_milli() as int;
        let load = self.spec_load(busy);
        let per_tick = self.config().ramp_rate_milli * self.config().sample_interval_us / 1000;
        let per_tick_burst = self.config().ramp_rate_burst_milli * self.config().sample_interval_us / 1000;
        let drift = self.config().ramp_rate_milli * self.config().sample_interval_us / 10000;
        let t2 = if self.spec_burst(busy) {
            t + per_tick_burst
        } else if load > self.config().up_thresh {
            t + per_tick
        } else if load < self.config().down_thresh {
            t - per_tick
        } else if self.spec_can_optimize(busy, now_us) {
            t - drift
        } else {
            t
        };
        if t2 < self.config().min_freq * 1000 {
            self.config().min_freq * 1000
        } else if t2 > self.config().max_freq * 1000 {
            self.config().max_freq * 1000
        } else {
            t2
        }
    }

    /// The target quantized to whole MHz.
    pub open spec fn spec_target_freq(&self, busy: bool, now_us: u64) -> int {
        self.spec_target_after(busy, now_us) / 1000
    }

    /// Whether a write is due this tick: the adjustment interval elapsed
    /// or a burst fired, and the new target crosses a boundary, a
    /// significance threshold, the fine-tune rule, or a burst moves the
    /// clock at all.
    pub open spec fn spec_write_due(&self, busy: bool, now_us: u64) -> bool {
        let tgt = self.spec_target_freq(busy, now_us);
        let diff = spec_abs_diff(self.current_freq(), tgt as u16);
        let adj_now = now_us >= self.last_adjustment() + self.config().adjustment_interval_us;
        let burst = self.spec_burst(busy);
        let hit_bounds = tgt != self.current_freq() && (tgt == self.config().min_freq || tgt
            == self.config().max_freq);
        let big_change = diff >= self.config().significant_change;
        let finetune = now_us >= self.last_finetune() + self.config().finetune_interval_us && diff
            >= self.config().small_change;
        let burst_up = burst && tgt != self.current_freq();
        (adj_now || burst) && (hit_bounds || big_change || finetune || burst_up)
    }

    /// One control tick: fold in the activity bit, move the target, and
    /// decide whether to publish a new frequency. A write happens only
    /// when the adjustment interval has elapsed since the last one or a
    /// burst was detected this tick.
    pub fn tick(&mut self, gui_busy: bool, now_us: u64) -> (r: Option<RampDecision>)
        requires
            old(self).wf(),
        ensures
            final(self).wf(),
            final(self).config() == old(self).config(),
            final(self).window() == old(self).spec_window_after(gui_busy),
            final(self).burst_reg() == shifted(old(self).burst_reg(), gui_busy),
            final(self).target_milli() == old(self).spec_target_after(gui_busy, now_us),
            (r is Some) == old(self).spec_write_due(gui_busy, now_us),
            r is Some ==> now_us >= old(self).last_adjustment()
                + old(self).config().adjustment_interval_us || old(self).spec_burst(gui_busy),
            r matches Some(d) ==> {
                &&& d.freq == old(self).spec_target_freq(gui_busy, now_us)
                &&& d.prev_freq == old(self).current_freq()
                &&& d.gpu_load == old(self).spec_load(gui_busy)
                &&& d.burst_up == (old(self).spec_burst(gui_busy) && d.freq != d.prev_freq)
                &&& d.hit_bounds == (d.freq != d.prev_freq && (d.freq == old(self).config().min_freq
                    || d.freq == old(self).config().max_freq))
                &&& d.big_change == (spec_abs_diff(d.prev_freq, d.freq) >= old(
                    self,
                ).config().significant_change)
                &&& d.finetune == (now_us >= old(self).last_finetune() + old(
                    self,
                ).config().finetune_interval_us && spec_abs_diff(d.prev_freq, d.freq) >= old(
                    self,
                ).config().small_change)
                &&& d.can_optimize == old(self).spec_can_optimize(gui_busy, now_us)
                &&& final(self).current_freq() == d.freq
                &&& final(self).last_finetune() == now_us
                &&& final(self).last_freq_change() == now_us
                &&& final(self).last_adjustment() == now_us
            },
            r is None ==> {
                &&& final(self).current_freq() == old(self).current_freq()
                &&& final(self).last_finetune() == old(self).last_finetune()
                &&& final(self).last_freq_change() == old(self).last_freq_change()
                &&& final(self).last_adjustment() == (if now_us >= old(self).last_adjustment()
                    + old(self).config().adjustment_interval_us || old(self).spec_burst(gui_busy) {
                    now_us
                } else {
                    old(self).last_adjustment()
                })
            },
    {
        self.stats.add_sample(gui_busy);
        self.burst_reg = (self.burst_reg << 1) | (if gui_busy {
            1u64
        } else {
            0u64
        });
        let gpu_load = self.stats.gpu_percent();
        let burst = match self.cfg.burst_mask {
            Some(m) => self.burst_reg & m == m,
            None => false,
        };

        let in_stable_zone = gpu_load >= self.cfg.down_thresh && gpu_load <= self.cfg.up_thresh;
        let stable_long = now_us >= self.last_freq_change_us && now_us - self.last_freq_change_us
            >= self.cfg.optimize_interval_us;
        let can_optimize = self.cfg.optimize_interval_us > 0 && in_stable_zone && stable_long
            && self.cfg.up_thresh >= 200 && gpu_load < self.cfg.up_thresh - 200;
        proof {
            if self.cfg.up_thresh < 200 {
                assert(!(old(self).spec_load(gui_busy) < self.cfg.up_thresh - 200));
            }
        }

        proof {
            assert((self.cfg.ramp_rate_milli as int) * (self.cfg.sample_interval_us as int)
                <= 0x1_0000_0000int * 0x1_0000) by (nonlinear_arith)
                requires
                    self.cfg.ramp_rate_milli <= 0x1_0000_0000,
                    self.cfg.sample_interval_us <= 0x1_0000,
            ;
            assert((self.cfg.ramp_rate_burst_milli as int) * (self.cfg.sample_interval_us as int)
                <= 0x1_0000_0000int * 0x1_0000) by (nonlinear_arith)
                requires
                    self.cfg.ramp_rate_burst_milli <= 0x1_0000_0000,
                    self.cfg.sample_interval_us <= 0x1_0000,
            ;
        }
        let per_tick: u64 = self.cfg.ramp_rate_milli * (self.cfg.sample_interval_us as u64)
            / 1000;
        let per_tick_burst: u64 = self.cfg.ramp_rate_burst_milli * (self.cfg.sample_interval_us
            as u64) / 1000;
        let drift: u64 = self.cfg.ramp_rate_milli * (self.cfg.sample_interval_us as u64) / 10000;

        let lo: u64 = (self.cfg.min_freq as u64) * 1000;
        let hi: u64 = (self.cfg.max_freq as u64) * 1000;
        let raised: u64 = if burst {
            self.target_milli + per_tick_burst
        } else if gpu_load > self.cfg.up_thresh {
            self.target_milli + per_tick
        } else if gpu_load < self.cfg.down_thresh {
            if self.target_milli >= per_tick {
                self.target_milli - per_tick
            } else {
                0
            }
        } else if can_optimize {
            if self.target_milli >= drift {
                self.target_milli - drift
            } else {
                0
            }
        } else {
            self.target_milli
        };
        let clamped: u64 = if raised < lo {
            lo
        } else if raised > hi {
            hi
        } else {
            raised
        };
        self.target_milli = clamped;

        let adj_now = now_us >= self.last_adjustment_us && now_us - self.last_adjustment_us
            >= self.cfg.adjustment_interval_us;
        if !(adj_now || burst) {
            return None;
        }
        let target_freq: u16 = (self.target_milli / 1000) as u16;
        let diff: u16 = if self.curr_freq >= target_freq {
            self.curr_freq - target_freq
        } else {
            target_freq - self.curr_freq
        };
        let hit_bounds = target_freq != self.curr_freq && (target_freq == self.cfg.min_freq
            || target_freq == self.cfg.max_freq);
        let big_change = diff >= self.cfg.significant_change;
        let finetune_due = now_us >= self.last_finetune_us && now_us - self.last_finetune_us
            >= self.cfg.finetune_interval_us;
        let finetune = finetune_due && diff >= self.cfg.small_change;
        let burst_up = burst && self.curr_freq != target_freq;
        self.last_adjustment_us = now_us;
        let r = if hit_bounds || big_change || finetune || burst_up {
            let log = self.throttle.should_log(now_us);
            let d = RampDecision {
                freq: target_freq,
                prev_freq: self.curr_freq,
                gpu_load,
                burst_up,
                hit_bounds,
                big_change,
                finetune,
                can_optimize,
                log,
            };
            self.curr_freq = target_freq;
            self.last_finetune_us = now_us;
            self.last_freq_change_us = now_us;
            Some(d)
        } else {
            None
        };
        r
    }
}

} // verus!
