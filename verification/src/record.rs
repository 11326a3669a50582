//! The experiment entity: the raw persisted row shape, the validated
//! in-memory record, and the one-place conversion between them (reading raw
//! fields first, then validating every field, failing the whole conversion
//! on the first bad field).

use vstd::prelude::*;
use crate::assignee::{spec_parse_assignee, Assignee, SpecAssignee};
use crate::error::{Error, SpecError};
use crate::types::{CapLints, Mode, Status};

verus! {

/// An opaque toolchain identifier; this core only stores and compares it.
pub type Toolchain = String;

/// Ghost mirror of [`GitHubIssue`].
pub struct SpecGitHubIssue {
    pub api_url: Seq<char>,
    pub html_url: Seq<char>,
    pub number: int,
}

/// The external issue an experiment was requested from; either fully
/// present or fully absent.
#[derive(Clone, Debug)]
pub struct GitHubIssue {
    pub api_url: String,
    pub html_url: String,
    pub number: i32,
}

impl View for GitHubIssue {
    type V = SpecGitHubIssue;

    open spec fn view(&self) -> SpecGitHubIssue {
        SpecGitHubIssue {
            api_url: self.api_url@,
            html_url: self.html_url@,
            number: self.number as int,
        }
    }
}

/// Ghost mirror of [`Experiment`].
#[verifier::ext_equal]
pub struct SpecExperiment {
    pub name: Seq<char>,
    pub toolchain_start: Seq<char>,
    pub toolchain_end: Seq<char>,
    pub mode: Mode,
    pub cap_lints: CapLints,
    pub priority: int,
    pub created_at: int,
    pub started_at: Option<int>,
    pub completed_at: Option<int>,
    pub github_issue: Option<SpecGitHubIssue>,
    pub status: Status,
    pub assigned_to: Option<SpecAssignee>,
    pub report_url: Option<Seq<char>>,
    pub ignore_blacklist: bool,
    pub requirement: Option<Seq<char>>,
}

/// A validated experiment, the in-memory shape the scheduler works on.
#[derive(Clone, Debug)]
pub struct Experiment {
    /// Globally unique, immutable; the primary key.
    pub name: String,
    /// The baseline and the candidate toolchain, in that order.
    pub toolchains: [Toolchain; 2],
    pub mode: Mode,
    pub cap_lints: CapLints,
    /// Higher is more urgent.
    pub priority: i32,
    /// Milliseconds since the epoch; the tie-breaker (older first).
    pub created_at: i64,
    /// Stamped exactly once, on the first transition into Running.
    pub started_at: Option<i64>,
    /// Stamped on the first transition out of Running to a non-Failed state.
    pub completed_at: Option<i64>,
    pub github_issue: Option<GitHubIssue>,
    pub status: Status,
    pub assigned_to: Option<Assignee>,
    pub report_url: Option<String>,
    /// Consumed by crate selection, not by this core.
    pub ignore_blacklist: bool,
    /// When present, only agents advertising this capability are eligible.
    pub requirement: Option<String>,
}

impl View for Experiment {
    type V = SpecExperiment;

    open spec fn view(&self) -> SpecExperiment {
        SpecExperiment {
            name: self.name@,
            toolchain_start: self.toolchains@[0]@,
            toolchain_end: self.toolchains@[1]@,
            mode: self.mode,
            cap_lints: self.cap_lints,
            priority: self.priority as int,
            created_at: self.created_at as int,
            started_at: match self.started_at {
                Some(t) => Some(t as int),
                None => None,
            },
            completed_at: match self.completed_at {
                Some(t) => Some(t as int),
                None => None,
            },
            github_issue: match self.github_issue {
                Some(issue) => Some(issue@),
                None => None,
            },
            status: self.status,
            assigned_to: match self.assigned_to {
                Some(a) => Some(a@),
                None => None,
            },
            report_url: match self.report_url {
                Some(u) => Some(u@),
                None => None,
            },
            ignore_blacklist: self.ignore_blacklist,
            requirement: match self.requirement {
                Some(t) => Some(t@),
                None => None,
            },
        }
    }
}

/// Ghost mirror of [`ExperimentRecord`].
#[verifier::ext_equal]
pub struct SpecRecord {
    pub name: Seq<char>,
    pub mode: Seq<char>,
    pub cap_lints: Seq<char>,
    pub toolchain_start: Seq<char>,
    pub toolchain_end: Seq<char>,
    pub priority: int,
    pub created_at: int,
    pub started_at: Option<int>,
    pub completed_at: Option<int>,
    pub github_issue: Option<Seq<char>>,
    pub github_issue_url: Option<Seq<char>>,
    pub github_issue_number: Option<int>,
    pub status: Seq<char>,
    pub assigned_to: Option<Seq<char>>,
    pub report_url: Option<Seq<char>>,
    pub ignore_blacklist: bool,
    pub requirement: Option<Seq<char>>,
}

/// The raw persisted row: every enumeration still text, exactly as the
/// store column holds it.
#[derive(Clone, Debug)]
pub struct ExperimentRecord {
    pub name: String,
    pub mode: String,
    pub cap_lints: String,
    pub toolchain_start: String,
    pub toolchain_end: String,
    pub priority: i32,
    pub created_at: i64,
    pub started_at: Option<i64>,
    pub completed_at: Option<i64>,
    pub github_issue: Option<String>,
    pub github_issue_url: Option<String>,
    pub github_issue_number: Option<i32>,
    pub status: String,
    pub assigned_to: Option<String>,
    pub report_url: Option<String>,
    pub ignore_blacklist: bool,
    pub requirement: Option<String>,
}

impl View for ExperimentRecord {
    type V = SpecRecord;

    open spec fn view(&self) -> SpecRecord {
        SpecRecord {
            name: self.name@,
            mode: self.mode@,
            cap_lints: self.cap_lints@,
            toolchain_start: self.toolchain_start@,
            toolchain_end: self.toolchain_end@,
            priority: self.priority as int,
            created_at: self.created_at as int,
            started_at: match self.started_at {
                Some(t) => Some(t as int),
                None => None,
            },
            completed_at: match self.completed_at {
                Some(t) => Some(t as int),
                None => None,
            },
            github_issue: match self.github_issue {
                Some(s) => Some(s@),
                None => None,
            },
            github_issue_url: match self.github_issue_url {
                Some(s) => Some(s@),
                None => None,
            },
            github_issue_number: match self.github_issue_number {
                Some(n) => Some(n as int),
                None => None,
            },
            status: self.status@,
            assigned_to: match self.assigned_to {
                Some(s) => Some(s@),
                None => None,
            },
            report_url: match self.report_url {
                Some(s) => Some(s@),
                None => None,
            },
            ignore_blacklist: self.ignore_blacklist,
            requirement: match self.requirement {
                Some(s) => Some(s@),
                None => None,
            },
        }
    }
}

/// The issue of a raw row: present only when all three columns are.
pub open spec fn spec_issue_of(r: SpecRecord) -> Option<SpecGitHubIssue> {
    if r.github_issue is Some && r.github_issue_url is Some && r.github_issue_number is Some {
        Some(
            SpecGitHubIssue {
                api_url: r.github_issue->0,
                html_url: r.github_issue_url->0,
                number: r.github_issue_number->0,
            },
        )
    } else {
        None
    }
}

/// Validate a raw row into an experiment: the first bad field fails the
/// whole conversion, in the order lint cap, mode, assignee, status.
pub open spec fn rec_to_exp(r: SpecRecord) -> Result<SpecExperiment, SpecError> {
    if CapLints::from_str_spec(r.cap_lints) is None {
        Err(SpecError::UnknownVariant(r.cap_lints))
    } else if Mode::from_str_spec(r.mode) is None {
        Err(SpecError::UnknownVariant(r.mode))
    } else if r.assigned_to is Some && spec_parse_assignee(r.assigned_to->0) is Err {
        Err(SpecError::BadAssignee(spec_parse_assignee(r.assigned_to->0)->Err_0))
    } else if Status::from_str_spec(r.status) is None {
        Err(SpecError::UnknownVariant(r.status))
    } else {
        Ok(
            SpecExperiment {
                name: r.name,
                toolchain_start: r.toolchain_start,
                toolchain_end: r.toolchain_end,
                mode: Mode::from_str_spec(r.mode)->0,
                cap_lints: CapLints::from_str_spec(r.cap_lints)->0,
                priority: r.priority,
                created_at: r.created_at,
                started_at: r.started_at,
                completed_at: r.completed_at,
                github_issue: spec_issue_of(r),
                status: Status::from_str_spec(r.status)->0,
                assigned_to: if r.assigned_to is Some {
                    Some(spec_parse_assignee(r.assigned_to->0)->Ok_0)
                } else {
                    None
                },
                report_url: r.report_url,
                ignore_blacklist: r.ignore_blacklist,
                requirement: r.requirement,
            },
        )
    }
}

impl ExperimentRecord {
    /// A copy whose view equals this row's.
    pub fn duplicate(&self) -> (r: ExperimentRecord)
        ensures
            r@ == self@,
    {
        ExperimentRecord {
            name: self.name.clone(),
            mode: self.mode.clone(),
            cap_lints: self.cap_lints.clone(),
            toolchain_start: self.toolchain_start.clone(),
            toolchain_end: self.toolchain_end.clone(),
            priority: self.priority,
            created_at: self.created_at,
            started_at: self.started_at,
            completed_at: self.completed_at,
            github_issue: clone_opt_string(&self.github_issue),
            github_issue_url: clone_opt_string(&self.github_issue_url),
            github_issue_number: self.github_issue_number,
            status: self.status.clone(),
            assigned_to: clone_opt_string(&self.assigned_to),
            report_url: clone_opt_string(&self.report_url),
            ignore_blacklist: self.ignore_blacklist,
            requirement: clone_opt_string(&self.requirement),
        }
    }

    /// Validate this raw row into an [`Experiment`], per [`rec_to_exp`].
    pub fn into_experiment(self) -> (r: Result<Experiment, Error>)
        ensures
            match r {
                Ok(e) => rec_to_exp(self@) == Ok::<SpecExperiment, SpecError>(e@),
                Err(er) => rec_to_exp(self@) == Err::<SpecExperiment, SpecError>(er@),
            },
    {
        let cap_lints = match CapLints::from_str(self.cap_lints.as_str()) {
            Ok(v) => v,
            Err(e) => {
                return Err(e);
            },
        };
        let mode = match Mode::from_str(self.mode.as_str()) {
            Ok(v) => v,
            Err(e) => {
                return Err(e);
            },
        };
        let assigned_to = match &self.assigned_to {
            Some(text) => match Assignee::from_str(text.as_str()) {
                Ok(a) => Some(a),
                Err(e) => {
                    return Err(Error::BadAssignee(e));
                },
            },
            None => None,
        };
        let status = match Status::from_str(self.status.as_str()) {
            Ok(v) => v,
            Err(e) => {
                return Err(e);
            },
        };
        let github_issue = match (&self.github_issue, &self.github_issue_url, &self.github_issue_number) {
            (Some(api_url), Some(html_url), Some(number)) => Some(
                GitHubIssue { api_url: api_url.clone(), html_url: html_url.clone(), number: *number },
            ),
            _ => None,
        };
        Ok(
            Experiment {
                name: self.name,
                toolchains: [self.toolchain_start, self.toolchain_end],
                mode,
                cap_lints,
                priority: self.priority,
                created_at: self.created_at,
                started_at: self.started_at,
                completed_at: self.completed_at,
                github_issue,
                status,
                assigned_to,
                report_url: self.report_url,
                ignore_blacklist: self.ignore_blacklist,
                requirement: self.requirement,
            },
        )
    }
}

/// A copy of an optional string with the same view.
pub fn clone_opt_string(s: &Option<String>) -> (r: Option<String>)
    ensures
        r is Some == s is Some,
        r is Some ==> r->0@ == s->0@,
{
    match s {
        Some(text) => Some(text.clone()),
        None => None,
    }
}

} // verus!
