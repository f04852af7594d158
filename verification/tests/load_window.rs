use cyan_skillfish_governor::load_monitor::GpuLoadMonitor;
use cyan_skillfish_governor::ramp::GpuStats;

#[test]
fn alternating_samples_give_half_load() {
    let mut w = GpuLoadMonitor::new(100);
    for i in 0..100 {
        w.add_sample(i % 2 == 0);
    }
    assert_eq!(w.load_percent(), 5000);
    assert!(w.is_full());
}

#[test]
fn saturated_window_reads_full_then_drops_one_point() {
    let mut w = GpuLoadMonitor::new(100);
    for i in 0..100 {
        w.add_sample(i % 2 == 0);
    }
    for _ in 0..100 {
        w.add_sample(true);
    }
    assert_eq!(w.load_percent(), 10000);
    w.add_sample(false);
    assert_eq!(w.load_percent(), 9900);
}

#[test]
fn empty_window_reads_zero() {
    let w = GpuLoadMonitor::new(10);
    assert_eq!(w.load_percent(), 0);
    assert!(!w.is_full());
    assert_eq!(w.len(), 0);
}

#[test]
fn window_never_outgrows_capacity() {
    let mut w = GpuLoadMonitor::new(3);
    for _ in 0..10 {
        w.add_sample(true);
        assert!(w.len() <= 3);
    }
    assert_eq!(w.len(), 3);
    assert_eq!(w.load_percent(), 10000);
    // three falses evict the three trues
    for _ in 0..3 {
        w.add_sample(false);
    }
    assert_eq!(w.load_percent(), 0);
}

#[test]
fn gpu_stats_counts_like_the_monitor() {
    let mut s = GpuStats::new(4);
    s.add_sample(true);
    s.add_sample(false);
    assert_eq!(s.gpu_percent(), 5000);
    s.add_sample(true);
    s.add_sample(true);
    assert_eq!(s.gpu_percent(), 7500);
    // eviction of the first (true) sample
    s.add_sample(false);
    assert_eq!(s.gpu_percent(), 5000);
}
