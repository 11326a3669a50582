use experiments::assignee::{Assignee, AssigneeParseError};
use experiments::types::{CapLints, CrateSelect, Mode, Status};
use experiments::error::Error;

#[test]
fn test_assignee_parsing() {
    assert_eq!(
        Assignee::Agent("foo".to_string()).to_string().as_str(),
        "agent:foo"
    );
    assert_eq!(
        Assignee::from_str("agent:foo").unwrap(),
        Assignee::Agent("foo".to_string())
    );

    assert_eq!(Assignee::CLI.to_string().as_str(), "cli");
    assert_eq!(Assignee::from_str("cli").unwrap(), Assignee::CLI);

    for empty in &["", "agent:"] {
        let err = Assignee::from_str(empty).unwrap_err();
        assert_eq!(err, AssigneeParseError::Empty);
    }

    let err = Assignee::from_str("foo").unwrap_err();
    assert_eq!(err, AssigneeParseError::InvalidKind("foo".into()));

    for invalid in &["cli:", "cli:foo"] {
        let err = Assignee::from_str(invalid).unwrap_err();
        assert_eq!(err, AssigneeParseError::UnexpectedPayload);
    }
}

#[test]
fn assignee_rejects_blank_input() {
    assert_eq!(Assignee::from_str("   ").unwrap_err(), AssigneeParseError::Empty);
    assert_eq!(Assignee::from_str("agent:   ").unwrap_err(), AssigneeParseError::Empty);
    assert_eq!(Assignee::from_str("agent").unwrap_err(), AssigneeParseError::Empty);
    assert_eq!(
        Assignee::from_str(":payload").unwrap_err(),
        AssigneeParseError::InvalidKind(String::new())
    );
}

#[test]
fn error_messages_describe_the_failure() {
    assert_eq!(
        Assignee::from_str("").unwrap_err().message(),
        "the assignee is empty"
    );
    assert_eq!(
        Assignee::from_str("cli:x").unwrap_err().message(),
        "unexpected assignee payload"
    );
    assert_eq!(
        Error::UnknownVariant("zzz".to_string()).message(),
        "unknown variant"
    );
    assert_eq!(
        Error::BadAssignee(AssigneeParseError::InvalidKind("x".to_string())).message(),
        "invalid assignee kind"
    );
}

#[test]
fn status_round_trips() {
    let all = [
        (Status::Queued, "queued"),
        (Status::Running, "running"),
        (Status::NeedsReport, "needs-report"),
        (Status::Failed, "failed"),
        (Status::GeneratingReport, "generating-report"),
        (Status::ReportFailed, "report-failed"),
        (Status::Completed, "completed"),
    ];
    for (v, s) in all {
        assert_eq!(v.to_str(), s);
        assert_eq!(Status::from_str(s).unwrap(), v);
    }
    match Status::from_str("bogus").unwrap_err() {
        Error::UnknownVariant(t) => assert_eq!(t, "bogus"),
        other => panic!("wrong error: {:?}", other),
    }
}

#[test]
fn mode_round_trips() {
    let all = [
        (Mode::BuildAndTest, "build-and-test"),
        (Mode::BuildOnly, "build-only"),
        (Mode::CheckOnly, "check-only"),
        (Mode::Clippy, "clippy"),
        (Mode::Rustdoc, "rustdoc"),
        (Mode::UnstableFeatures, "unstable-features"),
    ];
    for (v, s) in all {
        assert_eq!(v.to_str(), s);
        assert_eq!(Mode::from_str(s).unwrap(), v);
    }
    assert!(Mode::from_str("build").is_err());
}

#[test]
fn crate_select_round_trips() {
    let all = [
        (CrateSelect::Full, "full"),
        (CrateSelect::Demo, "demo"),
        (CrateSelect::SmallRandom, "small-random"),
        (CrateSelect::Top100, "top-100"),
        (CrateSelect::Local, "local"),
        (CrateSelect::Dummy, "dummy"),
    ];
    for (v, s) in all {
        assert_eq!(v.to_str(), s);
        assert_eq!(CrateSelect::from_str(s).unwrap(), v);
    }
    assert!(CrateSelect::from_str("FULL").is_err());
}

#[test]
fn cap_lints_round_trips() {
    let all = [
        (CapLints::Allow, "allow"),
        (CapLints::Warn, "warn"),
        (CapLints::Deny, "deny"),
        (CapLints::Forbid, "forbid"),
    ];
    for (v, s) in all {
        assert_eq!(v.to_str(), s);
        assert_eq!(CapLints::from_str(s).unwrap(), v);
    }
    assert!(CapLints::from_str("").is_err());
}
