use cyan_skillfish_governor::constants::MIN_FREQ_MHZ;
use cyan_skillfish_governor::engine::GovernorEngine;
use cyan_skillfish_governor::governor::GovernorMode;
use cyan_skillfish_governor::process_detection::GpuProcess;
use cyan_skillfish_governor::profile_db::ProcessProfile;

fn proc(name: &str, total_cycles: u64) -> GpuProcess {
    GpuProcess { pid: 7, name: name.to_string(), total_cycles }
}

const SEC: u64 = 1_000_000;

#[test]
fn a_known_process_is_applied_directly() {
    let mut e = GovernorEngine::new(0);
    e.load_profile(ProcessProfile::new("GameX/game".to_string(), 400, 10000, 50));
    // baseline scan, then one showing the game busy
    let s1 = vec![proc("GameX/game", 0)];
    e.step(true, Some(&s1), SEC);
    let s2 = vec![proc("GameX/game", 200_000_000)];
    let r = e.step(true, Some(&s2), 2 * SEC);
    assert_eq!(e.governor.mode, GovernorMode::Applied);
    assert_eq!(e.governor.current_freq, 400);
    assert_eq!(r.set_freq, Some(400));
    assert_eq!(e.served_process().map(|s| s.as_str()), Some("GameX/game"));
}

#[test]
fn an_unknown_process_starts_a_learning_phase_at_the_floor() {
    let mut e = GovernorEngine::new(0);
    let s1 = vec![proc("GameZ/game", 0)];
    e.step(true, Some(&s1), SEC);
    let s2 = vec![proc("GameZ/game", 200_000_000)];
    let r = e.step(true, Some(&s2), 2 * SEC);
    assert_eq!(e.governor.mode, GovernorMode::Learning);
    assert_eq!(e.governor.current_freq, MIN_FREQ_MHZ);
    assert_eq!(r.set_freq, Some(MIN_FREQ_MHZ));
}

#[test]
fn a_compositor_alone_keeps_the_engine_idle() {
    let mut e = GovernorEngine::new(0);
    let s1 = vec![proc("kwin_wayland", 0)];
    e.step(true, Some(&s1), SEC);
    let s2 = vec![proc("kwin_wayland", 300_000_000)];
    let r = e.step(true, Some(&s2), 2 * SEC);
    assert_eq!(e.governor.mode, GovernorMode::Idle);
    assert_eq!(e.governor.current_freq, MIN_FREQ_MHZ);
    assert_eq!(r.set_freq, None);
    assert!(e.served_process().is_none());
}

#[test]
fn a_vanished_process_drops_the_engine_to_idle() {
    let mut e = GovernorEngine::new(0);
    e.load_profile(ProcessProfile::new("g".to_string(), 700, 9000, 9));
    let s1 = vec![proc("g", 0)];
    e.step(true, Some(&s1), SEC);
    let s2 = vec![proc("g", 200_000_000)];
    e.step(true, Some(&s2), 2 * SEC);
    assert_eq!(e.governor.mode, GovernorMode::Applied);
    let empty: Vec<GpuProcess> = vec![];
    let r = e.step(true, Some(&empty), 3 * SEC);
    assert_eq!(e.governor.mode, GovernorMode::Idle);
    assert_eq!(r.set_freq, Some(MIN_FREQ_MHZ));
    assert!(e.served_process().is_none());
}

#[test]
fn learning_ends_in_a_stored_profile_and_an_applied_mode() {
    let mut e = GovernorEngine::new(0);
    let mut now: u64 = 0;
    let mut cycles: u64 = 0;
    let mut saved = false;
    // ~125 simulated seconds at a 10 ms tick, the game 20% busy
    for i in 0..12_500u64 {
        now += 10_000;
        let scan;
        let arg = if e.needs_scan(now) {
            cycles += 200_000_000;
            scan = vec![proc("GameX/game", cycles)];
            Some(&scan)
        } else {
            None
        };
        // roughly 70% activity
        let busy = i % 10 < 7;
        let r = e.step(busy, arg, now);
        saved = saved || r.save_profiles;
    }
    assert!(saved, "a learned profile was persisted");
    assert_eq!(e.governor.mode, GovernorMode::Applied);
    let p = e.db.get("GameX/game").expect("profile stored under the game's name");
    assert!(p.samples_count >= 5);
    assert_eq!(p.optimal_freq, e.governor.current_freq);
    assert!(p.optimal_freq >= MIN_FREQ_MHZ);
}
