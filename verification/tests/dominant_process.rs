use cyan_skillfish_governor::process_detection::GpuProcess;
use cyan_skillfish_governor::process_monitor::ProcessMonitor;

fn proc(name: &str, total_cycles: u64) -> GpuProcess {
    GpuProcess { pid: 1, name: name.to_string(), total_cycles }
}

const SEC: u64 = 1_000_000;

#[test]
fn scans_are_rate_limited_to_one_per_second() {
    let m = ProcessMonitor::new(0);
    assert!(!m.needs_scan(999_999));
    assert!(m.needs_scan(SEC));
}

#[test]
fn an_excluded_compositor_never_becomes_tracked() {
    let mut m = ProcessMonitor::new(0);
    // settle the baseline totals
    m.update(&vec![proc("kwin_wayland", 0)], SEC);
    // 30% utilization over one second, but the name is excluded
    let r = m.update(&vec![proc("kwin_wayland", 300_000_000)], 2 * SEC);
    assert_eq!(r, None);
    assert_eq!(m.current(), None);
}

#[test]
fn a_busy_game_becomes_tracked() {
    let mut m = ProcessMonitor::new(0);
    m.update(&vec![proc("GameX/game", 0)], SEC);
    let r = m.update(&vec![proc("GameX/game", 200_000_000)], 2 * SEC);
    assert_eq!(r, Some("GameX/game".to_string()));
    // 20% of a second, in hundredths of a percent
    assert_eq!(m.current_usage_centi(), 2000);
}

#[test]
fn a_faint_process_is_ignored() {
    let mut m = ProcessMonitor::new(0);
    m.update(&vec![proc("GameX/game", 0)], SEC);
    // 4% utilization: below the 5% interest threshold
    let r = m.update(&vec![proc("GameX/game", 40_000_000)], 2 * SEC);
    assert_eq!(r, None);
}

#[test]
fn a_newcomer_needs_twice_the_incumbents_appetite() {
    let mut m = ProcessMonitor::new(0);
    m.update(&vec![proc("a", 0), proc("b", 0)], SEC);
    m.update(&vec![proc("a", 100_000_000), proc("b", 0)], 2 * SEC);
    assert_eq!(m.current(), Some("a".to_string()));
    // b at 15% vs a at 10%: ratio 1.5, no switch
    let r = m.update(&vec![proc("a", 200_000_000), proc("b", 150_000_000)], 3 * SEC);
    assert_eq!(r, Some("a".to_string()));
    // b at 25% vs a at 10%: ratio 2.5, switch
    let r2 = m.update(&vec![proc("a", 300_000_000), proc("b", 400_000_000)], 4 * SEC);
    assert_eq!(r2, Some("b".to_string()));
}

#[test]
fn an_idle_incumbent_is_displaced_at_once() {
    let mut m = ProcessMonitor::new(0);
    m.update(&vec![proc("a", 0), proc("b", 0)], SEC);
    m.update(&vec![proc("a", 100_000_000), proc("b", 0)], 2 * SEC);
    assert_eq!(m.current(), Some("a".to_string()));
    // a stops entirely; b is merely at the threshold
    let r = m.update(&vec![proc("a", 100_000_000), proc("b", 60_000_000)], 3 * SEC);
    assert_eq!(r, Some("b".to_string()));
}

#[test]
fn an_empty_scan_clears_the_tracking() {
    let mut m = ProcessMonitor::new(0);
    m.update(&vec![proc("a", 0)], SEC);
    m.update(&vec![proc("a", 500_000_000)], 2 * SEC);
    assert_eq!(m.current(), Some("a".to_string()));
    let r = m.update(&vec![], 3 * SEC);
    assert_eq!(r, None);
    assert_eq!(m.current(), None);
}

#[test]
fn stability_takes_ten_seconds() {
    let mut m = ProcessMonitor::new(0);
    m.update(&vec![proc("a", 0)], SEC);
    m.update(&vec![proc("a", 500_000_000)], 2 * SEC);
    assert!(!m.is_process_stable(2 * SEC));
    assert!(!m.is_process_stable(11 * SEC));
    assert!(m.is_process_stable(12 * SEC));
}
