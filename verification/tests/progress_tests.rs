use experiments::record::{Experiment, ExperimentRecord};
use experiments::store::{CrateRecord, Store};
use experiments::error::Error;

fn dummy_record(name: &str) -> ExperimentRecord {
    ExperimentRecord {
        name: name.to_string(),
        mode: "build-and-test".to_string(),
        cap_lints: "forbid".to_string(),
        toolchain_start: "stable".to_string(),
        toolchain_end: "beta".to_string(),
        priority: 0,
        created_at: 1,
        started_at: None,
        completed_at: None,
        github_issue: None,
        github_issue_url: None,
        github_issue_number: None,
        status: "queued".to_string(),
        assigned_to: None,
        report_url: None,
        ignore_blacklist: false,
        requirement: None,
    }
}

#[test]
fn test_completed_crates() {
    let mut db = Store::new();
    assert!(db.add_experiment(dummy_record("dummy")));
    db.add_crate("dummy", "lazy_static", false);
    db.add_crate("dummy", "brson/hello-rs", false);
    let ex = Experiment::get(&db, "dummy").unwrap().unwrap();

    let crates = ex.get_uncompleted_crates(&db).unwrap();
    assert_eq!(crates.len(), 2);
    let crate1 = crates[0].clone();
    let crate2 = crates[1].clone();

    // Fill some results: two for the first crate, one for the second.
    db.add_result("dummy", &crate1, &ex.toolchains[0]);
    db.add_result("dummy", &crate1, &ex.toolchains[1]);
    db.add_result("dummy", &crate2, &ex.toolchains[1]);

    // Test already completed crates does not show up again
    let uncompleted_crates = ex.get_uncompleted_crates(&db).unwrap();
    assert_eq!(uncompleted_crates.len(), crates.len() - 1);
}

#[test]
fn uncompleted_crates_is_exactly_the_lagging_one() {
    let mut db = Store::new();
    assert!(db.add_experiment(dummy_record("dummy")));
    db.add_crate("dummy", "one", false);
    db.add_crate("dummy", "two", false);
    let ex = Experiment::get(&db, "dummy").unwrap().unwrap();
    let (done, expected) = ex.raw_progress(&db).unwrap();
    assert_eq!((done, expected), (0, 4));

    db.add_result("dummy", "one", "stable");
    db.add_result("dummy", "one", "beta");
    db.add_result("dummy", "two", "beta");

    assert_eq!(
        ex.get_uncompleted_crates(&db).unwrap(),
        vec!["two".to_string()]
    );
}

#[test]
fn progress_percentages_are_exact() {
    let mut db = Store::new();
    assert!(db.add_experiment(dummy_record("dummy")));
    let ex = Experiment::get(&db, "dummy").unwrap().unwrap();

    // No crates at all: expected_units is 0 and progress displays 0.
    assert_eq!(ex.raw_progress(&db).unwrap(), (0, 0));
    assert_eq!(ex.progress(&db).unwrap(), 0);

    db.add_crate("dummy", "one", false);
    db.add_crate("dummy", "two", false);
    db.add_crate("dummy", "ignored", true);  // skipped: not expected

    // Zero of four units done.
    assert_eq!(ex.raw_progress(&db).unwrap(), (0, 4));
    assert_eq!(ex.progress(&db).unwrap(), 0);

    // One of four: ceil(25.0) == 25.
    db.add_result("dummy", "one", "stable");
    assert_eq!(ex.raw_progress(&db).unwrap(), (1, 4));
    assert_eq!(ex.progress(&db).unwrap(), 25);

    // Three of four: 75, never displayed as less.
    db.add_result("dummy", "one", "beta");
    db.add_result("dummy", "two", "stable");
    assert_eq!(ex.progress(&db).unwrap(), 75);

    // All four: exactly 100.
    db.add_result("dummy", "two", "beta");
    assert_eq!(ex.raw_progress(&db).unwrap(), (4, 4));
    assert_eq!(ex.progress(&db).unwrap(), 100);
}

#[test]
fn progress_rounds_up_not_down() {
    let mut db = Store::new();
    assert!(db.add_experiment(dummy_record("dummy")));
    // Three crates: six expected units; one result is ceil(100/6) = 17.
    db.add_crate("dummy", "a", false);
    db.add_crate("dummy", "b", false);
    db.add_crate("dummy", "c", false);
    let ex = Experiment::get(&db, "dummy").unwrap().unwrap();
    db.add_result("dummy", "a", "stable");
    assert_eq!(ex.progress(&db).unwrap(), 17);
}

#[test]
fn crate_payloads_are_stored_encoded() {
    let mut db = Store::new();
    assert!(db.add_experiment(dummy_record("dummy")));
    db.add_crate("dummy", "serde", false);

    // The payload column holds the JSON text form, not the bare name.
    assert_eq!(db.crates[0].payload, "\"serde\"");

    // Reading decodes it back.
    let ex = Experiment::get(&db, "dummy").unwrap().unwrap();
    assert_eq!(ex.get_crates(&db).unwrap(), vec!["serde".to_string()]);
}

#[test]
fn undecodable_crate_payload_is_an_error() {
    let mut db = Store::new();
    assert!(db.add_experiment(dummy_record("dummy")));
    db.crates.push(CrateRecord {
        experiment: "dummy".to_string(),
        payload: "not json".to_string(),
        skipped: false,
    });
    let ex = Experiment::get(&db, "dummy").unwrap().unwrap();
    match ex.get_crates(&db).unwrap_err() {
        Error::BadCratePayload(p) => assert_eq!(p, "not json"),
        other => panic!("wrong error: {:?}", other),
    }
}
