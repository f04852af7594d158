use cyan_skillfish_governor::ramp::{LogThrottle, RampConfig, RampGovernor};

fn base_config() -> RampConfig {
    RampConfig {
        sample_interval_us: 2000,
        adjustment_interval_us: 20_000,
        finetune_interval_us: 100_000_000_000,
        log_interval_secs: 0,
        optimize_interval_us: 0,
        window_samples: 100,
        burst_mask: None,
        ramp_rate_milli: 1000,
        ramp_rate_burst_milli: 50_000,
        small_change: 10,
        significant_change: 100,
        up_thresh: 9000,
        down_thresh: 5000,
        min_freq: 350,
        max_freq: 2000,
    }
}

#[test]
fn sustained_load_ramps_to_the_ceiling() {
    let mut g = RampGovernor::new(base_config(), 0);
    let mut now: u64 = 0;
    let mut reached: Option<u64> = None;
    for _ in 0..1000 {
        now += 2000;
        if let Some(d) = g.tick(true, now) {
            assert!(d.freq > d.prev_freq);
            if d.freq == 2000 {
                reached = Some(now);
                break;
            }
        }
    }
    // 1650 MHz to climb at 2 MHz per 2 ms tick: 825 ticks of 2 ms
    let t = reached.expect("ceiling reached");
    assert!(t <= 830 * 2000, "took {} us", t);
}

#[test]
fn idleness_ramps_back_down() {
    let mut g = RampGovernor::new(base_config(), 0);
    let mut now: u64 = 0;
    for _ in 0..900 {
        now += 2000;
        g.tick(true, now);
    }
    let mut lowest = 2000u16;
    for _ in 0..2000 {
        now += 2000;
        if let Some(d) = g.tick(false, now) {
            assert!(d.freq < d.prev_freq);
            lowest = d.freq;
        }
    }
    assert_eq!(lowest, 350);
}

#[test]
fn no_write_happens_before_the_adjustment_interval() {
    let mut g = RampGovernor::new(base_config(), 0);
    // nine ticks: 18 ms, still inside the 20 ms adjustment interval
    let mut now: u64 = 0;
    for _ in 0..9 {
        now += 2000;
        assert_eq!(g.tick(true, now), None);
    }
}

#[test]
fn a_burst_forces_a_write_before_the_adjustment_interval() {
    let mut cfg = base_config();
    cfg.burst_mask = Some(!(u64::MAX << 48));
    cfg.adjustment_interval_us = 1_000_000_000;
    let mut g = RampGovernor::new(cfg, 0);
    let mut now: u64 = 0;
    for i in 1..=47 {
        now += 2000;
        assert_eq!(g.tick(true, now), None, "no burst before sample {}", i);
    }
    now += 2000;
    let d = g.tick(true, now).expect("the 48th consecutive sample fires the burst");
    assert!(d.burst_up);
    assert!(d.freq > 350);
}

#[test]
fn an_interrupted_run_does_not_burst() {
    let mut cfg = base_config();
    cfg.burst_mask = Some(!(u64::MAX << 48));
    cfg.adjustment_interval_us = 1_000_000_000;
    let mut g = RampGovernor::new(cfg, 0);
    let mut now: u64 = 0;
    for _ in 0..40 {
        now += 2000;
        g.tick(true, now);
    }
    now += 2000;
    g.tick(false, now);
    // the gap broke the run: 40 more busy samples stay short of 48
    for _ in 0..40 {
        now += 2000;
        assert_eq!(g.tick(true, now), None);
    }
}

#[test]
fn the_first_log_line_always_passes() {
    let mut t = LogThrottle::new(60);
    assert!(t.should_log(5));
    assert!(!t.should_log(6));
    assert!(!t.should_log(59_999_999));
    assert!(t.should_log(60_000_005));
}

#[test]
fn the_stable_band_holds_the_target() {
    let mut g = RampGovernor::new(base_config(), 0);
    let mut now: u64 = 0;
    // 70% busy: inside the 50..90 band, no optimization configured
    for i in 0..3000u64 {
        now += 2000;
        let busy = i % 10 < 7;
        assert_eq!(g.tick(busy, now), None);
    }
}
