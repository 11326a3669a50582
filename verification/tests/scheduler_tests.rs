use experiments::assignee::Assignee;
use experiments::record::{Experiment, ExperimentRecord};
use experiments::store::Store;
use experiments::types::Status;
use experiments::error::Error;

fn dummy_record(name: &str, priority: i32, created_at: i64) -> ExperimentRecord {
    ExperimentRecord {
        name: name.to_string(),
        mode: "build-and-test".to_string(),
        cap_lints: "forbid".to_string(),
        toolchain_start: "stable".to_string(),
        toolchain_end: "beta".to_string(),
        priority,
        created_at,
        started_at: None,
        completed_at: None,
        github_issue: None,
        github_issue_url: None,
        github_issue_number: None,
        status: "queued".to_string(),
        assigned_to: None,
        report_url: None,
        ignore_blacklist: false,
        requirement: None,
    }
}

#[test]
fn test_assigning_experiment() {
    let mut db = Store::new();

    let agent1 = Assignee::Agent("agent-1".to_string());
    let agent2 = Assignee::Agent("agent-2".to_string());
    let agent3 = Assignee::Agent("agent-3".to_string());

    assert!(db.add_experiment(dummy_record("test", 0, 1)));
    assert!(db.add_experiment(dummy_record("important", 10, 2)));

    // Test the important experiment is correctly assigned
    let (new, ex) = Experiment::next(&mut db, &agent1).unwrap().unwrap();
    assert!(new);
    assert_eq!(ex.name.as_str(), "important");
    assert_eq!(ex.status, Status::Running);
    assert_eq!(ex.assigned_to.unwrap(), agent1);

    // Test the same experiment is returned to the agent
    let (new, ex) = Experiment::next(&mut db, &agent1).unwrap().unwrap();
    assert!(!new);
    assert_eq!(ex.name.as_str(), "important");

    // Test the less important experiment is assigned to the next agent
    let (new, ex) = Experiment::next(&mut db, &agent2).unwrap().unwrap();
    assert!(new);
    assert_eq!(ex.name.as_str(), "test");
    assert_eq!(ex.status, Status::Running);
    assert_eq!(ex.assigned_to.unwrap(), agent2);

    // Test no other experiment is available for the other agents
    assert!(Experiment::next(&mut db, &agent3).unwrap().is_none());
}

#[test]
fn test_assigning_experiment_with_requirements() {
    let mut db = Store::new();

    let agent1 = Assignee::Agent("agent-1".to_string());
    let agent2 = Assignee::Agent("agent-2".to_string());

    db.add_capability("agent-1", "linux");
    db.add_capability("agent-2", "windows");
    db.add_capability("agent-2", "big-hard-drive");

    let mut windows = dummy_record("windows", 0, 1);
    windows.requirement = Some("windows".to_string());
    assert!(db.add_experiment(windows));

    // Test that an experiment will not be assigned to an agent without the
    // required capabilities.
    assert!(Experiment::next(&mut db, &agent1).unwrap().is_none());

    // Test that an experiment with no capabilities can be assigned to any
    // agent.
    assert!(db.add_experiment(dummy_record("no-requirements", 0, 2)));

    let (new, ex) = Experiment::next(&mut db, &agent1).unwrap().unwrap();
    assert!(new);
    assert_eq!(ex.name.as_str(), "no-requirements");
    assert_eq!(ex.status, Status::Running);
    assert_eq!(ex.assigned_to.unwrap(), agent1);

    // Test that an experiment will be assigned to an agent with the
    // required capabilities.
    let (new, ex) = Experiment::next(&mut db, &agent2).unwrap().unwrap();
    assert!(new);
    assert_eq!(ex.name.as_str(), "windows");
    assert_eq!(ex.status, Status::Running);
    assert_eq!(ex.assigned_to.unwrap(), agent2);
}

#[test]
fn test_assigning_experiment_with_preassigned_agent() {
    let mut db = Store::new();

    let agent1 = Assignee::Agent("agent-1".to_string());
    let agent2 = Assignee::Agent("agent-2".to_string());

    let mut assigned = dummy_record("assigned", 0, 1);
    assigned.assigned_to = Some(agent1.to_string());
    assert!(db.add_experiment(assigned));

    assert!(db.add_experiment(dummy_record("important", 10, 2)));

    // Try to get an experiment for agent 1, it should pick 'assigned' even
    // if 'important' has an higher priority.
    let (new, ex) = Experiment::next(&mut db, &agent1).unwrap().unwrap();
    assert!(new);
    assert_eq!(ex.assigned_to.unwrap(), agent1);
    assert_eq!(ex.name.as_str(), "assigned");

    // Then the 'important' experiment will be picked by agent 2
    let (new, ex) = Experiment::next(&mut db, &agent2).unwrap().unwrap();
    assert!(new);
    assert_eq!(ex.assigned_to.unwrap(), agent2);
    assert_eq!(ex.name.as_str(), "important");
}

#[test]
fn cli_actor_skips_capability_filter() {
    let mut db = Store::new();
    let mut windows = dummy_record("windows-only", 0, 1);
    windows.requirement = Some("windows".to_string());
    assert!(db.add_experiment(windows));

    // The CLI actor is exempt from capability filtering.
    let (new, ex) = Experiment::next(&mut db, &Assignee::CLI).unwrap().unwrap();
    assert!(new);
    assert_eq!(ex.name.as_str(), "windows-only");
    assert_eq!(ex.assigned_to.unwrap(), Assignee::CLI);
}

#[test]
fn status_timestamps_follow_the_law() {
    let mut db = Store::new();
    assert!(db.add_experiment(dummy_record("one", 0, 1)));
    let mut ex = Experiment::get(&db, "one").unwrap().unwrap();
    assert!(ex.started_at.is_none() && ex.completed_at.is_none());

    // First transition into Running stamps started_at, once.
    ex.set_status(&mut db, Status::Running).unwrap();
    let started = ex.started_at.expect("started_at must be stamped");
    assert!(ex.completed_at.is_none());

    // Leaving Running to a non-Failed status stamps completed_at.
    ex.set_status(&mut db, Status::NeedsReport).unwrap();
    assert_eq!(ex.started_at, Some(started));
    let completed = ex.completed_at.expect("completed_at must be stamped");

    // Neither stamp is ever overwritten.
    ex.set_status(&mut db, Status::Running).unwrap();
    ex.set_status(&mut db, Status::Completed).unwrap();
    assert_eq!(ex.started_at, Some(started));
    assert_eq!(ex.completed_at, Some(completed));

    // The stored row carries the same stamps.
    let stored = Experiment::get(&db, "one").unwrap().unwrap();
    assert_eq!(stored.started_at, Some(started));
    assert_eq!(stored.completed_at, Some(completed));

    // Running -> Failed stamps neither.
    assert!(db.add_experiment(dummy_record("two", 0, 2)));
    let mut other = Experiment::get(&db, "two").unwrap().unwrap();
    other.set_status(&mut db, Status::Running).unwrap();
    other.set_status(&mut db, Status::Failed).unwrap();
    assert!(other.started_at.is_some());
    assert!(other.completed_at.is_none());
}

#[test]
fn accessors_find_and_list() {
    let mut db = Store::new();
    assert!(db.add_experiment(dummy_record("a", 0, 5)));
    assert!(db.add_experiment(dummy_record("b", 7, 9)));
    let mut done = dummy_record("c", 99, 1);
    done.status = "completed".to_string();
    assert!(db.add_experiment(done));

    assert!(Experiment::exists_named(&db, "a").unwrap());
    assert!(!Experiment::exists_named(&db, "zzz").unwrap());
    assert!(Experiment::get(&db, "zzz").unwrap().is_none());

    // A duplicate name is refused and changes nothing.
    assert!(!db.add_experiment(dummy_record("a", 3, 3)));

    // Completed experiments are not listed; higher priority first.
    let unfinished = Experiment::unfinished(&db).unwrap();
    let names: Vec<&str> = unfinished.iter().map(|e| e.name.as_str()).collect();
    assert_eq!(names, vec!["b", "a"]);

    // The most preferred queued experiment: priority 7 beats 0.
    let first = Experiment::first_by_status(&db, Status::Queued).unwrap().unwrap();
    assert_eq!(first.name.as_str(), "b");
    let none = Experiment::first_by_status(&db, Status::Running).unwrap();
    assert!(none.is_none());
}

#[test]
fn unfinished_breaks_priority_ties_by_age() {
    let mut db = Store::new();
    assert!(db.add_experiment(dummy_record("younger", 1, 20)));
    assert!(db.add_experiment(dummy_record("older", 1, 10)));
    assert!(db.add_experiment(dummy_record("urgent", 2, 30)));
    let names: Vec<String> = Experiment::unfinished(&db)
        .unwrap()
        .into_iter()
        .map(|e| e.name)
        .collect();
    assert_eq!(names, vec!["urgent", "older", "younger"]);
}

#[test]
fn set_assigned_to_and_report_url_persist() {
    let mut db = Store::new();
    assert!(db.add_experiment(dummy_record("one", 0, 1)));
    let mut ex = Experiment::get(&db, "one").unwrap().unwrap();
    let agent = Assignee::Agent("worker".to_string());

    ex.set_assigned_to(&mut db, Some(&agent)).unwrap();
    assert_eq!(ex.assigned_to.clone().unwrap(), agent);
    let stored = Experiment::get(&db, "one").unwrap().unwrap();
    assert_eq!(stored.assigned_to.unwrap(), agent);

    ex.set_assigned_to(&mut db, None).unwrap();
    assert!(ex.assigned_to.is_none());
    assert!(Experiment::get(&db, "one").unwrap().unwrap().assigned_to.is_none());

    ex.set_report_url(&mut db, "https://reports.example/one").unwrap();
    assert_eq!(ex.report_url.as_deref(), Some("https://reports.example/one"));
    let stored = Experiment::get(&db, "one").unwrap().unwrap();
    assert_eq!(stored.report_url.as_deref(), Some("https://reports.example/one"));
}

#[test]
fn bad_rows_surface_parse_errors() {
    let mut db = Store::new();
    let mut bad_status = dummy_record("bad-status", 0, 1);
    bad_status.status = "sleeping".to_string();
    assert!(db.add_experiment(bad_status));
    match Experiment::get(&db, "bad-status").unwrap_err() {
        Error::UnknownVariant(t) => assert_eq!(t, "sleeping"),
        other => panic!("wrong error: {:?}", other),
    }

    let mut bad_assignee = dummy_record("bad-assignee", 0, 1);
    bad_assignee.assigned_to = Some("robot:r2".to_string());
    assert!(db.add_experiment(bad_assignee));
    match Experiment::get(&db, "bad-assignee").unwrap_err() {
        Error::BadAssignee(e) => {
            assert_eq!(
                e,
                experiments::assignee::AssigneeParseError::InvalidKind("robot".to_string())
            );
        },
        other => panic!("wrong error: {:?}", other),
    }
}
