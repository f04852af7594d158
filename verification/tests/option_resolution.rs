use cyan_skillfish_governor::config::{
    resolve_freq_range, resolve_ramp_config, ConfigWarning, FreqRangeError, RawRampOptions,
};

fn nothing() -> RawRampOptions {
    RawRampOptions {
        sample: None,
        adjust: None,
        finetune: None,
        log: None,
        optimize: None,
        window_samples: None,
        burst_samples: None,
        ramp_rate_milli: None,
        ramp_rate_burst_milli: None,
        small_change: None,
        significant_change: None,
        upper_centi: None,
        lower_centi: None,
    }
}

#[test]
fn every_missing_option_gets_its_documented_default() {
    let (cfg, warnings) = resolve_ramp_config(&nothing(), 350, 2000);
    assert_eq!(cfg.sample_interval_us, 2000);
    assert_eq!(cfg.adjustment_interval_us, 20_000);
    assert_eq!(cfg.finetune_interval_us, 100_000_000);
    assert_eq!(cfg.log_interval_secs, 60);
    assert_eq!(cfg.optimize_interval_us, 30_000_000);
    assert_eq!(cfg.window_samples, 100);
    assert_eq!(cfg.burst_mask, Some(!(u64::MAX << 48)));
    assert_eq!(cfg.ramp_rate_milli, 1000);
    assert_eq!(cfg.ramp_rate_burst_milli, 50_000);
    assert_eq!(cfg.small_change, 10);
    assert_eq!(cfg.significant_change, 100);
    assert_eq!(cfg.up_thresh, 9000);
    assert_eq!(cfg.down_thresh, 8000);
    assert_eq!(cfg.min_freq, 350);
    assert_eq!(cfg.max_freq, 2000);
    // one warning per replaced option
    assert_eq!(warnings.len(), 13);
}

#[test]
fn valid_options_pass_through_unwarned() {
    let raw = RawRampOptions {
        sample: Some(1000),
        adjust: Some(5000),
        finetune: Some(80_000),
        log: Some(10),
        optimize: Some(0),
        window_samples: Some(50),
        burst_samples: Some(32),
        ramp_rate_milli: Some(2000),
        ramp_rate_burst_milli: Some(90_000),
        small_change: Some(5),
        significant_change: Some(60),
        upper_centi: Some(8500),
        lower_centi: Some(4500),
    };
    let (cfg, warnings) = resolve_ramp_config(&raw, 350, 2000);
    assert!(warnings.is_empty());
    assert_eq!(cfg.sample_interval_us, 1000);
    assert_eq!(cfg.optimize_interval_us, 0);
    assert_eq!(cfg.burst_mask, Some(!(u64::MAX << 32)));
    assert_eq!(cfg.up_thresh, 8500);
    assert_eq!(cfg.down_thresh, 4500);
}

#[test]
fn a_lower_threshold_above_the_upper_is_clamped() {
    let mut raw = nothing();
    raw.upper_centi = Some(6000);
    raw.lower_centi = Some(9500);
    let (cfg, warnings) = resolve_ramp_config(&raw, 350, 2000);
    assert_eq!(cfg.up_thresh, 6000);
    assert_eq!(cfg.down_thresh, 6000);
    assert!(warnings.contains(&ConfigWarning::LowerAboveUpper));
}

#[test]
fn zero_burst_samples_disable_bursting() {
    let mut raw = nothing();
    raw.burst_samples = Some(0);
    let (cfg, _) = resolve_ramp_config(&raw, 350, 2000);
    assert_eq!(cfg.burst_mask, None);
}

#[test]
fn too_many_burst_samples_are_clamped_to_the_register() {
    let mut raw = nothing();
    raw.burst_samples = Some(80);
    let (cfg, warnings) = resolve_ramp_config(&raw, 350, 2000);
    assert_eq!(cfg.burst_mask, Some(u64::MAX));
    assert!(warnings.contains(&ConfigWarning::BurstSamplesClamped));
}

#[test]
fn a_burst_rate_no_higher_than_the_normal_rate_is_replaced() {
    let mut raw = nothing();
    raw.ramp_rate_milli = Some(2000);
    raw.ramp_rate_burst_milli = Some(1500);
    let (cfg, warnings) = resolve_ramp_config(&raw, 350, 2000);
    assert_eq!(cfg.ramp_rate_burst_milli, 100_000);
    assert!(warnings.contains(&ConfigWarning::RampRateBurst));
}

#[test]
fn an_out_of_range_threshold_falls_back_to_the_default() {
    let mut raw = nothing();
    raw.upper_centi = Some(20_000);
    let (cfg, warnings) = resolve_ramp_config(&raw, 350, 2000);
    assert_eq!(cfg.up_thresh, 9000);
    assert!(warnings.contains(&ConfigWarning::UpperThreshold));
}

#[test]
fn the_safe_span_is_clamped_to_the_hardware_range() {
    assert_eq!(resolve_freq_range(350, 2000, 200, 2500), Ok((350, 2000)));
    assert_eq!(resolve_freq_range(350, 2000, 400, 1800), Ok((400, 1800)));
    assert_eq!(
        resolve_freq_range(350, 2000, 100_000, 200_000),
        Err(FreqRangeError::HardwareMinTooHigh)
    );
    assert_eq!(resolve_freq_range(350, 2000, 2100, 2500), Err(FreqRangeError::EmptyRange));
}
