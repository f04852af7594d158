use cyan_skillfish_governor::profile_db::{ProcessDatabase, ProcessProfile};

#[test]
fn a_stored_profile_reads_back_unchanged() {
    let mut db = ProcessDatabase::new();
    db.set(ProcessProfile::new("GameX/game".to_string(), 400, 10000, 50));
    let p = db.get("GameX/game").expect("stored profile");
    assert_eq!(p.name, "GameX/game");
    assert_eq!(p.optimal_freq, 400);
    assert_eq!(p.comfort_score, 10000);
    assert_eq!(p.samples_count, 50);
}

#[test]
fn a_second_set_for_the_same_name_replaces_the_record() {
    let mut db = ProcessDatabase::new();
    db.set(ProcessProfile::new("g".to_string(), 400, 9000, 10));
    db.set(ProcessProfile::new("g".to_string(), 700, 9500, 80));
    let p = db.get("g").unwrap();
    assert_eq!(p.optimal_freq, 700);
    assert_eq!(p.samples_count, 80);
    assert_eq!(db.len(), 1);
}

#[test]
fn unknown_names_yield_nothing() {
    let mut db = ProcessDatabase::new();
    assert!(db.get("nope").is_none());
    db.set(ProcessProfile::new("a".to_string(), 500, 8000, 6));
    assert!(db.get("b").is_none());
    assert!(db.get("a").is_some());
}

#[test]
fn several_names_live_side_by_side() {
    let mut db = ProcessDatabase::new();
    db.set(ProcessProfile::new("a".to_string(), 400, 9000, 10));
    db.set(ProcessProfile::new("b".to_string(), 800, 9900, 20));
    assert_eq!(db.get("a").unwrap().optimal_freq, 400);
    assert_eq!(db.get("b").unwrap().optimal_freq, 800);
    assert_eq!(db.len(), 2);
}
