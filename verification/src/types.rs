//! The closed string-backed enumerations of the data model. Each maps a
//! fixed set of variants to canonical lowercase-hyphenated strings and back;
//! parsing an unrecognized string fails with [`Error::UnknownVariant`]
//! carrying the offending text.

use vstd::prelude::*;
use crate::error::{Error, SpecError};
use crate::strutil::str_eq;

verus! {

/// Lifecycle state of an experiment.
#[derive(Clone, Copy, Debug, PartialEq, Eq, Structural)]
pub enum Status {
    Queued,
    Running,
    NeedsReport,
    Failed,
    GeneratingReport,
    ReportFailed,
    Completed,
}

/// What each crate is built or tested with.
#[derive(Clone, Copy, Debug, PartialEq, Eq, Structural)]
pub enum Mode {
    BuildAndTest,
    BuildOnly,
    CheckOnly,
    Clippy,
    Rustdoc,
    UnstableFeatures,
}

/// Which crate list an experiment is drawn from.
#[derive(Clone, Copy, Debug, PartialEq, Eq, Structural)]
pub enum CrateSelect {
    Full,
    Demo,
    SmallRandom,
    Top100,
    Local,
    Dummy,
}

/// The lint cap applied while building.
#[derive(Clone, Copy, Debug, PartialEq, Eq, Structural)]
pub enum CapLints {
    Allow,
    Warn,
    Deny,
    Forbid,
}

impl Status {
    /// The canonical string of each variant.
    pub open spec fn as_str_spec(self) -> Seq<char> {
        match self {
            Status::Queued => "queued"@,
            Status::Running => "running"@,
            Status::NeedsReport => "needs-report"@,
            Status::Failed => "failed"@,
            Status::GeneratingReport => "generating-report"@,
            Status::ReportFailed => "report-failed"@,
            Status::Completed => "completed"@,
        }
    }

    /// The inverse of [`Status::as_str_spec`], or `None` off the table.
    pub open spec fn from_str_spec(s: Seq<char>) -> Option<Status> {
        if s == "queued"@ {
            Some(Status::Queued)
        } else if s == "running"@ {
            Some(Status::Running)
        } else if s == "needs-report"@ {
            Some(Status::NeedsReport)
        } else if s == "failed"@ {
            Some(Status::Failed)
        } else if s == "generating-report"@ {
            Some(Status::GeneratingReport)
        } else if s == "report-failed"@ {
            Some(Status::ReportFailed)
        } else if s == "completed"@ {
            Some(Status::Completed)
        } else {
            None
        }
    }

    pub fn to_str(&self) -> (r: &'static str)
        ensures
            r@ == self.as_str_spec(),
    {
        match self {
            Status::Queued => "queued",
            Status::Running => "running",
            Status::NeedsReport => "needs-report",
            Status::Failed => "failed",
            Status::GeneratingReport => "generating-report",
            Status::ReportFailed => "report-failed",
            Status::Completed => "completed",
        }
    }

    pub fn from_str(s: &str) -> (r: Result<Status, Error>)
        ensures
            match r {
                Ok(v) => Status::from_str_spec(s@) == Some(v),
                Err(e) => Status::from_str_spec(s@) is None && e@ == SpecError::UnknownVariant(
                    s@,
                ),
            },
    {
        if str_eq(s, "queued") {
            Ok(Status::Queued)
        } else if str_eq(s, "running") {
            Ok(Status::Running)
        } else if str_eq(s, "needs-report") {
            Ok(Status::NeedsReport)
        } else if str_eq(s, "failed") {
            Ok(Status::Failed)
        } else if str_eq(s, "generating-report") {
            Ok(Status::GeneratingReport)
        } else if str_eq(s, "report-failed") {
            Ok(Status::ReportFailed)
        } else if str_eq(s, "completed") {
            Ok(Status::Completed)
        } else {
            Err(Error::UnknownVariant(s.to_owned()))
        }
    }
}

/// Law: every status round-trips through its canonical string.
pub proof fn lemma_status_round_trip(v: Status)
    ensures
        Status::from_str_spec(v.as_str_spec()) == Some(v),
{
    reveal_strlit("queued");
    reveal_strlit("running");
    reveal_strlit("needs-report");
    reveal_strlit("failed");
    reveal_strlit("generating-report");
    reveal_strlit("report-failed");
    reveal_strlit("completed");
    assert("queued"@.len() == 6);
    assert("running"@.len() == 7);
    assert("needs-report"@.len() == 12);
    assert("failed"@.len() == 6);
    assert("generating-report"@.len() == 17);
    assert("report-failed"@.len() == 13);
    assert("completed"@.len() == 9);
    assert("queued"@[0] == 'q');
    assert("failed"@[0] == 'f');
    match v {
        Status::Queued => {
            assert(Status::from_str_spec(Status::Queued.as_str_spec()) == Some(Status::Queued));
        },
        Status::Running => {
            assert(Status::from_str_spec(Status::Running.as_str_spec()) == Some(Status::Running));
        },
        Status::NeedsReport => {
            assert(Status::from_str_spec(Status::NeedsReport.as_str_spec()) == Some(Status::NeedsReport));
        },
        Status::Failed => {
            assert(Status::from_str_spec(Status::Failed.as_str_spec()) == Some(Status::Failed));
        },
        Status::GeneratingReport => {
            assert(Status::from_str_spec(Status::GeneratingReport.as_str_spec()) == Some(Status::GeneratingReport));
        },
        Status::ReportFailed => {
            assert(Status::from_str_spec(Status::ReportFailed.as_str_spec()) == Some(Status::ReportFailed));
        },
        Status::Completed => {
            assert(Status::from_str_spec(Status::Completed.as_str_spec()) == Some(Status::Completed));
        },
    }
}

impl Mode {
    /// The canonical string of each variant.
    pub open spec fn as_str_spec(self) -> Seq<char> {
        match self {
            Mode::BuildAndTest => "build-and-test"@,
            Mode::BuildOnly => "build-only"@,
            Mode::CheckOnly => "check-only"@,
            Mode::Clippy => "clippy"@,
            Mode::Rustdoc => "rustdoc"@,
            Mode::UnstableFeatures => "unstable-features"@,
        }
    }

    /// The inverse of [`Mode::as_str_spec`], or `None` off the table.
    pub open spec fn from_str_spec(s: Seq<char>) -> Option<Mode> {
        if s == "build-and-test"@ {
            Some(Mode::BuildAndTest)
        } else if s == "build-only"@ {
            Some(Mode::BuildOnly)
        } else if s == "check-only"@ {
            Some(Mode::CheckOnly)
        } else if s == "clippy"@ {
            Some(Mode::Clippy)
        } else if s == "rustdoc"@ {
            Some(Mode::Rustdoc)
        } else if s == "unstable-features"@ {
            Some(Mode::UnstableFeatures)
        } else {
            None
        }
    }

    pub fn to_str(&self) -> (r: &'static str)
        ensures
            r@ == self.as_str_spec(),
    {
        match self {
            Mode::BuildAndTest => "build-and-test",
            Mode::BuildOnly => "build-only",
            Mode::CheckOnly => "check-only",
            Mode::Clippy => "clippy",
            Mode::Rustdoc => "rustdoc",
            Mode::UnstableFeatures => "unstable-features",
        }
    }

    pub fn from_str(s: &str) -> (r: Result<Mode, Error>)
        ensures
            match r {
                Ok(v) => Mode::from_str_spec(s@) == Some(v),
                Err(e) => Mode::from_str_spec(s@) is None && e@ == SpecError::UnknownVariant(s@),
            },
    {
        if str_eq(s, "build-and-test") {
            Ok(Mode::BuildAndTest)
        } else if str_eq(s, "build-only") {
            Ok(Mode::BuildOnly)
        } else if str_eq(s, "check-only") {
            Ok(Mode::CheckOnly)
        } else if str_eq(s, "clippy") {
            Ok(Mode::Clippy)
        } else if str_eq(s, "rustdoc") {
            Ok(Mode::Rustdoc)
        } else if str_eq(s, "unstable-features") {
            Ok(Mode::UnstableFeatures)
        } else {
            Err(Error::UnknownVariant(s.to_owned()))
        }
    }
}

/// Law: every mode round-trips through its canonical string.
pub proof fn lemma_mode_round_trip(v: Mode)
    ensures
        Mode::from_str_spec(v.as_str_spec()) == Some(v),
{
    reveal_strlit("build-and-test");
    reveal_strlit("build-only");
    reveal_strlit("check-only");
    reveal_strlit("clippy");
    reveal_strlit("rustdoc");
    reveal_strlit("unstable-features");
    assert("build-and-test"@.len() == 14);
    assert("build-only"@.len() == 10);
    assert("check-only"@.len() == 10);
    assert("clippy"@.len() == 6);
    assert("rustdoc"@.len() == 7);
    assert("unstable-features"@.len() == 17);
    assert("build-only"@[0] == 'b');
    assert("check-only"@[0] == 'c');
    match v {
        Mode::BuildAndTest => {
            assert(Mode::from_str_spec(Mode::BuildAndTest.as_str_spec()) == Some(Mode::BuildAndTest));
        },
        Mode::BuildOnly => {
            assert(Mode::from_str_spec(Mode::BuildOnly.as_str_spec()) == Some(Mode::BuildOnly));
        },
        Mode::CheckOnly => {
            assert(Mode::from_str_spec(Mode::CheckOnly.as_str_spec()) == Some(Mode::CheckOnly));
        },
        Mode::Clippy => {
            assert(Mode::from_str_spec(Mode::Clippy.as_str_spec()) == Some(Mode::Clippy));
        },
        Mode::Rustdoc => {
            assert(Mode::from_str_spec(Mode::Rustdoc.as_str_spec()) == Some(Mode::Rustdoc));
        },
        Mode::UnstableFeatures => {
            assert(Mode::from_str_spec(Mode::UnstableFeatures.as_str_spec()) == Some(Mode::UnstableFeatures));
        },
    }
}

impl CrateSelect {
    /// The canonical string of each variant.
    pub open spec fn as_str_spec(self) -> Seq<char> {
        match self {
            CrateSelect::Full => "full"@,
            CrateSelect::Demo => "demo"@,
            CrateSelect::SmallRandom => "small-random"@,
            CrateSelect::Top100 => "top-100"@,
            CrateSelect::Local => "local"@,
            CrateSelect::Dummy => "dummy"@,
        }
    }

    /// The inverse of [`CrateSelect::as_str_spec`], or `None` off the table.
    pub open spec fn from_str_spec(s: Seq<char>) -> Option<CrateSelect> {
        if s == "full"@ {
            Some(CrateSelect::Full)
        } else if s == "demo"@ {
            Some(CrateSelect::Demo)
        } else if s == "small-random"@ {
            Some(CrateSelect::SmallRandom)
        } else if s == "top-100"@ {
            Some(CrateSelect::Top100)
        } else if s == "local"@ {
            Some(CrateSelect::Local)
        } else if s == "dummy"@ {
            Some(CrateSelect::Dummy)
        } else {
            None
        }
    }

    pub fn to_str(&self) -> (r: &'static str)
        ensures
            r@ == self.as_str_spec(),
    {
        match self {
            CrateSelect::Full => "full",
            CrateSelect::Demo => "demo",
            CrateSelect::SmallRandom => "small-random",
            CrateSelect::Top100 => "top-100",
            CrateSelect::Local => "local",
            CrateSelect::Dummy => "dummy",
        }
    }

    pub fn from_str(s: &str) -> (r: Result<CrateSelect, Error>)
        ensures
            match r {
                Ok(v) => CrateSelect::from_str_spec(s@) == Some(v),
                Err(e) => CrateSelect::from_str_spec(s@) is None && e@
                    == SpecError::UnknownVariant(s@),
            },
    {
        if str_eq(s, "full") {
            Ok(CrateSelect::Full)
        } else if str_eq(s, "demo") {
            Ok(CrateSelect::Demo)
        } else if str_eq(s, "small-random") {
            Ok(CrateSelect::SmallRandom)
        } else if str_eq(s, "top-100") {
            Ok(CrateSelect::Top100)
        } else if str_eq(s, "local") {
            Ok(CrateSelect::Local)
        } else if str_eq(s, "dummy") {
            Ok(CrateSelect::Dummy)
        } else {
            Err(Error::UnknownVariant(s.to_owned()))
        }
    }
}

/// Law: every crate selection round-trips through its canonical string.
pub proof fn lemma_crate_select_round_trip(v: CrateSelect)
    ensures
        CrateSelect::from_str_spec(v.as_str_spec()) == Some(v),
{
    reveal_strlit("full");
    reveal_strlit("demo");
    reveal_strlit("small-random");
    reveal_strlit("top-100");
    reveal_strlit("local");
    reveal_strlit("dummy");
    assert("full"@.len() == 4);
    assert("demo"@.len() == 4);
    assert("small-random"@.len() == 12);
    assert("top-100"@.len() == 7);
    assert("local"@.len() == 5);
    assert("dummy"@.len() == 5);
    assert("full"@[0] == 'f');
    assert("demo"@[0] == 'd');
    assert("local"@[0] == 'l');
    assert("dummy"@[0] == 'd');
    match v {
        CrateSelect::Full => {
            assert(CrateSelect::from_str_spec(CrateSelect::Full.as_str_spec()) == Some(CrateSelect::Full));
        },
        CrateSelect::Demo => {
            assert(CrateSelect::from_str_spec(CrateSelect::Demo.as_str_spec()) == Some(CrateSelect::Demo));
        },
        CrateSelect::SmallRandom => {
            assert(CrateSelect::from_str_spec(CrateSelect::SmallRandom.as_str_spec()) == Some(CrateSelect::SmallRandom));
        },
        CrateSelect::Top100 => {
            assert(CrateSelect::from_str_spec(CrateSelect::Top100.as_str_spec()) == Some(CrateSelect::Top100));
        },
        CrateSelect::Local => {
            assert(CrateSelect::from_str_spec(CrateSelect::Local.as_str_spec()) == Some(CrateSelect::Local));
        },
        CrateSelect::Dummy => {
            assert(CrateSelect::from_str_spec(CrateSelect::Dummy.as_str_spec()) == Some(CrateSelect::Dummy));
        },
    }
}

impl CapLints {
    /// The canonical string of each variant.
    pub open spec fn as_str_spec(self) -> Seq<char> {
        match self {
            CapLints::Allow => "allow"@,
            CapLints::Warn => "warn"@,
            CapLints::Deny => "deny"@,
            CapLints::Forbid => "forbid"@,
        }
    }

    /// The inverse of [`CapLints::as_str_spec`], or `None` off the table.
    pub open spec fn from_str_spec(s: Seq<char>) -> Option<CapLints> {
        if s == "allow"@ {
            Some(CapLints::Allow)
        } else if s == "warn"@ {
            Some(CapLints::Warn)
        } else if s == "deny"@ {
            Some(CapLints::Deny)
        } else if s == "forbid"@ {
            Some(CapLints::Forbid)
        } else {
            None
        }
    }

    pub fn to_str(&self) -> (r: &'static str)
        ensures
            r@ == self.as_str_spec(),
    {
        match self {
            CapLints::Allow => "allow",
            CapLints::Warn => "warn",
            CapLints::Deny => "deny",
            CapLints::Forbid => "forbid",
        }
    }

    pub fn from_str(s: &str) -> (r: Result<CapLints, Error>)
        ensures
            match r {
                Ok(v) => CapLints::from_str_spec(s@) == Some(v),
                Err(e) => CapLints::from_str_spec(s@) is None && e@ == SpecError::UnknownVariant(
                    s@,
                ),
            },
    {
        if str_eq(s, "allow") {
            Ok(CapLints::Allow)
        } else if str_eq(s, "warn") {
            Ok(CapLints::Warn)
        } else if str_eq(s, "deny") {
            Ok(CapLints::Deny)
        } else if str_eq(s, "forbid") {
            Ok(CapLints::Forbid)
        } else {
            Err(Error::UnknownVariant(s.to_owned()))
        }
    }
}

/// Law: every lint cap round-trips through its canonical string.
pub proof fn lemma_cap_lints_round_trip(v: CapLints)
    ensures
        CapLints::from_str_spec(v.as_str_spec()) == Some(v),
{
    reveal_strlit("allow");
    reveal_strlit("warn");
    reveal_strlit("deny");
    reveal_strlit("forbid");
    assert("allow"@.len() == 5);
    assert("warn"@.len() == 4);
    assert("deny"@.len() == 4);
    assert("forbid"@.len() == 6);
    assert("warn"@[0] == 'w');
    assert("deny"@[0] == 'd');
    match v {
        CapLints::Allow => {
            assert(CapLints::from_str_spec(CapLints::Allow.as_str_spec()) == Some(CapLints::Allow));
        },
        CapLints::Warn => {
            assert(CapLints::from_str_spec(CapLints::Warn.as_str_spec()) == Some(CapLints::Warn));
        },
        CapLints::Deny => {
            assert(CapLints::from_str_spec(CapLints::Deny.as_str_spec()) == Some(CapLints::Deny));
        },
        CapLints::Forbid => {
            assert(CapLints::from_str_spec(CapLints::Forbid.as_str_spec()) == Some(CapLints::Forbid));
        },
    }
}

} // verus!
