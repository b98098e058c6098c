use asol_naki::models_db::{KnownCpu, KnownModels};

#[test]
fn embedded_db_loads_and_has_bd_market_cpus() {
    let db = KnownModels::embedded();
    assert!(db.cpu_count() >= 10, "bootstrap set should be populated");
}

#[test]
fn lookup_is_case_insensitive() {
    let db = KnownModels::embedded();
    let a = db.cpu("Intel Core Ultra 5 125H");
    let b = db.cpu("intel core ultra 5 125h");
    assert!(a.is_some() && b.is_some());
    assert_eq!(a.unwrap().expected_threads, b.unwrap().expected_threads);
}

#[test]
fn probook_cpu_is_known() {
    let db = KnownModels::embedded();
    let cpu = db
        .cpu("Intel Core Ultra 5 125H")
        .expect("Ultra 5 125H in DB");
    assert_eq!(cpu.expected_cores, 14);
    assert_eq!(cpu.expected_threads, 18);
}

#[test]
fn unknown_model_returns_none() {
    let db = KnownModels::embedded();
    assert!(db.cpu("Totally Fake CPU 9999X").is_none());
}

#[test]
fn lookup_trims_surrounding_whitespace() {
    let db = KnownModels::embedded();
    let cpu = db.cpu("  Intel Core i5-1135G7\t\n").expect("trimmed lookup");
    assert_eq!(cpu.expected_cores, 4);
    assert_eq!(cpu.expected_threads, 8);
    assert_eq!(cpu.family, "Tiger Lake");
}

fn cpu(cores: u32, threads: u32) -> KnownCpu {
    KnownCpu {
        expected_cores: cores,
        expected_threads: threads,
        cache_mb: 8,
        family: "Test".to_string(),
    }
}

#[test]
fn insert_then_lookup_gives_inserted_and_replaces() {
    let mut db = KnownModels::new();
    assert_eq!(db.cpu_count(), 0);
    db.insert("chip a".to_string(), cpu(2, 4));
    db.insert("chip b".to_string(), cpu(4, 8));
    assert_eq!(db.cpu_count(), 2);
    assert_eq!(db.cpu("CHIP A").unwrap().expected_threads, 4);
    db.insert("chip a".to_string(), cpu(6, 12));
    assert_eq!(db.cpu_count(), 2);
    assert_eq!(db.cpu("chip a").unwrap().expected_threads, 12);
    assert_eq!(db.cpu("chip b").unwrap().expected_threads, 8);
    assert!(db.cpu("chip c").is_none());
}

#[test]
fn keys_are_matched_as_stored() {
    // Keys are stored as given; only the query is lowercased.
    let mut db = KnownModels::new();
    db.insert("Mixed Case".to_string(), cpu(1, 1));
    assert!(db.cpu("Mixed Case").is_none());
}
