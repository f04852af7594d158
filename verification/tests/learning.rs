use cyan_skillfish_governor::constants::{
    HIGH_LOAD_THRESHOLD, LOW_LOAD_THRESHOLD, MAX_FREQ_MHZ, MIN_FREQ_MHZ,
};
use cyan_skillfish_governor::governor::{
    FrequencyStats, GovernorMode, LearningStats, ProcessAwareGovernor,
};

#[test]
fn comfort_peaks_at_the_ideal_load() {
    let mut s = FrequencyStats::new(400);
    for _ in 0..10 {
        s.add_load_sample(7000);
    }
    assert_eq!(s.average_load(), 7000);
    assert_eq!(s.comfort_score(), 10000);

    let mut hot = FrequencyStats::new(350);
    for _ in 0..10 {
        hot.add_load_sample(9500);
    }
    assert_eq!(hot.comfort_score(), 7500);

    let mut cold = FrequencyStats::new(450);
    for _ in 0..10 {
        cold.add_load_sample(4000);
    }
    assert_eq!(cold.comfort_score(), 7000);
}

#[test]
fn the_most_comfortable_frequency_wins() {
    let mut ls = LearningStats::new();
    let mut now: u64 = 0;
    for (freq, load) in [(350u16, 9500u32), (400, 7000), (450, 4000)] {
        ls.set_frequency(freq, load, now);
        for _ in 0..49 {
            ls.add_load_sample(load);
        }
        now += 1_000_000;
    }
    let (best, comfort, samples) = ls.get_best_frequency().expect("a winner");
    assert_eq!(best, 400);
    assert_eq!(comfort, 10000);
    assert_eq!(samples, 50);
}

#[test]
fn frequencies_with_too_few_samples_are_never_chosen() {
    let mut ls = LearningStats::new();
    // four samples at 350: below the five-sample floor
    ls.set_frequency(350, 9000, 0);
    for _ in 0..3 {
        ls.add_load_sample(9000);
    }
    assert!(ls.get_best_frequency().is_none());
    // the fifth sample makes it eligible
    ls.add_load_sample(9000);
    let (best, _, samples) = ls.get_best_frequency().unwrap();
    assert_eq!(best, 350);
    assert_eq!(samples, 5);
}

#[test]
fn ties_go_to_the_lower_frequency() {
    let mut ls = LearningStats::new();
    ls.set_frequency(500, 7000, 0);
    for _ in 0..9 {
        ls.add_load_sample(7000);
    }
    ls.set_frequency(450, 7000, 1);
    for _ in 0..9 {
        ls.add_load_sample(7000);
    }
    let (best, comfort, _) = ls.get_best_frequency().unwrap();
    assert_eq!(comfort, 10000);
    assert_eq!(best, 450);
}

#[test]
fn learning_steps_wait_for_the_hold_off_interval() {
    let mut g = ProcessAwareGovernor::new(0);
    g.start_learning(MIN_FREQ_MHZ, 0);
    // 200 heavy samples ask for an increase
    for _ in 0..200 {
        g.add_load_sample(9600);
    }
    assert!(g.should_increase());
    // too early: within two seconds of the last change
    assert_eq!(g.try_adjust_learning(1_000_000), None);
    assert_eq!(g.current_freq, MIN_FREQ_MHZ);
    // after the hold-off the step happens and clears the history
    assert_eq!(g.try_adjust_learning(2_000_000), Some(MIN_FREQ_MHZ + 50));
    assert_eq!(g.current_freq, MIN_FREQ_MHZ + 50);
    assert!(!g.should_increase());
}

#[test]
fn steps_stay_inside_the_hardware_range() {
    let mut g = ProcessAwareGovernor::new(0);
    g.start_learning(MAX_FREQ_MHZ, 0);
    for _ in 0..200 {
        g.add_load_sample(9600);
    }
    // no room above: no step at all
    assert_eq!(g.try_adjust_learning(10_000_000), None);
    assert_eq!(g.current_freq, MAX_FREQ_MHZ);

    let mut d = ProcessAwareGovernor::new(0);
    d.start_learning(MIN_FREQ_MHZ, 0);
    for _ in 0..200 {
        d.add_load_sample(1000);
    }
    assert!(!d.should_decrease());
    assert_eq!(d.try_adjust_learning(10_000_000), None);
    assert_eq!(d.current_freq, MIN_FREQ_MHZ);
}

#[test]
fn saturation_checks_need_the_full_window() {
    let mut g = ProcessAwareGovernor::new(0);
    g.apply_known_frequency(800, 0);
    assert_eq!(g.mode, GovernorMode::Applied);
    for _ in 0..5999 {
        g.add_load_sample(9500);
    }
    assert!(!g.check_saturation());
    g.add_load_sample(9500);
    assert!(g.check_saturation());
    assert!(!g.check_underload());
    // threshold sanity: the band is where it should be
    assert!(9500 > HIGH_LOAD_THRESHOLD);
    assert!(4000 < LOW_LOAD_THRESHOLD);
}

#[test]
fn finalization_carries_score_and_count_into_a_profile() {
    let mut g = ProcessAwareGovernor::new(0);
    g.start_learning(MIN_FREQ_MHZ, 0);
    for i in 0..6 {
        g.add_load_sample(7000);
        // feed the learning table directly, as the engine does each tick
        let f = g.current_freq;
        if let Some(stats) = &mut g.learning_stats {
            stats.set_frequency(f, 7000, i);
        }
    }
    let p = g.finalize_learning().expect("a profile");
    assert_eq!(p.name, "");
    assert_eq!(p.optimal_freq, MIN_FREQ_MHZ);
    assert_eq!(p.comfort_score, 10000);
    assert!(p.samples_count >= 5);
}
