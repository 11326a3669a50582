//! The assignment scheduler and the status state machine.
//!
//! `next` is specified against [`next_spec`], a full functional description
//! of one scheduling step (parameterized by the clock reading `t`), over
//! which the scheduling laws are proved.

use vstd::prelude::*;
use crate::assignee::{spec_assignee_text, Assignee, SpecAssignee};
use crate::clock::now_millis;
use crate::error::Error;
use crate::record::{rec_to_exp, Experiment, SpecExperiment, SpecRecord};
use crate::store::{find_exp, lemma_find_exp_props, SpecStore, Store};
use crate::strutil::str_eq;
use crate::types::Status;

verus! {

// ---------------------------------------------------------------------
// Step 1: the running experiment already assigned to an assignee.
// ---------------------------------------------------------------------

/// Is this row a running experiment assigned to the actor with this text?
pub open spec fn is_running_for(r: SpecRecord, a_str: Seq<char>) -> bool {
    r.status == "running"@ && r.assigned_to == Some(a_str)
}

/// Index of the first running row assigned to `a_str`, at or after `i`.
pub open spec fn find_running_from(s: Seq<SpecRecord>, a_str: Seq<char>, i: int) -> Option<int>
    decreases s.len() - i,
{
    if i < 0 || i >= s.len() {
        None
    } else if is_running_for(s[i], a_str) {
        Some(i)
    } else {
        find_running_from(s, a_str, i + 1)
    }
}

/// Index of the first running row assigned to `a_str`, if any.
pub open spec fn find_running(s: Seq<SpecRecord>, a_str: Seq<char>) -> Option<int> {
    find_running_from(s, a_str, 0)
}

pub proof fn lemma_find_running_skip(s: Seq<SpecRecord>, a_str: Seq<char>, i: int)
    requires
        0 <= i <= s.len(),
        forall|j: int| 0 <= j < i ==> !is_running_for(#[trigger] s[j], a_str),
    ensures
        find_running(s, a_str) == find_running_from(s, a_str, i),
    decreases i,
{
    if i > 0 {
        lemma_find_running_skip(s, a_str, i - 1);
    }
}

pub proof fn lemma_find_running_props(s: Seq<SpecRecord>, a_str: Seq<char>, i: int)
    requires
        0 <= i <= s.len(),
    ensures
        match find_running_from(s, a_str, i) {
            Some(k) => i <= k < s.len() && is_running_for(s[k], a_str) && forall|j: int|
                i <= j < k ==> !is_running_for(#[trigger] s[j], a_str),
            None => forall|j: int| i <= j < s.len() ==> !is_running_for(#[trigger] s[j], a_str),
        },
    decreases s.len() - i,
{
    if i < s.len() && !is_running_for(s[i], a_str) {
        lemma_find_running_props(s, a_str, i + 1);
    }
}

// ---------------------------------------------------------------------
// Step 2: the ordered candidate search.
// ---------------------------------------------------------------------

/// Does some capability row advertise `cap` for `agent`?
pub open spec fn spec_has_capability(db: SpecStore, agent: Seq<char>, cap: Seq<char>) -> bool {
    exists|k: int|
        0 <= k < db.capabilities.len() && (#[trigger] db.capabilities[k]).agent_name == agent
            && db.capabilities[k].capability == cap
}

/// Is the row's requirement met by the assignee? A named agent must
/// advertise the required capability; the command-line actor is exempt
/// from capability filtering (a deliberate, documented gap).
pub open spec fn requirement_met(db: SpecStore, r: SpecRecord, a: SpecAssignee) -> bool {
    match a {
        SpecAssignee::Agent(name) => r.requirement is None || spec_has_capability(
            db,
            name,
            r.requirement->0,
        ),
        SpecAssignee::Cli => true,
    }
}

/// May row `i` be claimed by `a`: queued, unassigned or pre-assigned to
/// `a`'s exact text, and its requirement met.
pub open spec fn is_candidate(db: SpecStore, i: int, a: SpecAssignee) -> bool {
    let r = db.experiments[i];
    &&& 0 <= i < db.experiments.len()
    &&& r.status == "queued"@
    &&& (r.assigned_to is None || r.assigned_to == Some(spec_assignee_text(a)))
    &&& requirement_met(db, r, a)
}

/// Strict preference between candidate rows: pre-assigned rows first,
/// then higher priority, then earlier creation.
pub open spec fn precedes(a: SpecRecord, b: SpecRecord) -> bool {
    if (a.assigned_to is Some) != (b.assigned_to is Some) {
        a.assigned_to is Some
    } else if a.priority != b.priority {
        a.priority > b.priority
    } else {
        a.created_at < b.created_at
    }
}

/// The candidate left after scanning rows `i..`, starting from `best`:
/// a later row replaces the held one only when it strictly precedes it,
/// so the earliest row wins among ties.
pub open spec fn pick_from(db: SpecStore, a: SpecAssignee, i: int, best: Option<int>) -> Option<
    int,
>
    decreases db.experiments.len() - i,
{
    if i < 0 || i >= db.experiments.len() {
        best
    } else {
        let keep = if is_candidate(db, i, a) && (best is None || precedes(
            db.experiments[i],
            db.experiments[best->0],
        )) {
            Some(i)
        } else {
            best
        };
        pick_from(db, a, i + 1, keep)
    }
}

/// The row `next` claims for `a`, if any.
pub open spec fn chosen_candidate(db: SpecStore, a: SpecAssignee) -> Option<int> {
    pick_from(db, a, 0, None)
}

/// What scanning the rest adds to what a partial scan established.
pub proof fn lemma_pick_from_props(db: SpecStore, a: SpecAssignee, i: int, best: Option<int>)
    requires
        0 <= i <= db.experiments.len(),
        match best {
            Some(b) => 0 <= b < i && is_candidate(db, b, a) && (forall|k: int|
                0 <= k < i && is_candidate(db, k, a) ==> !precedes(
                    #[trigger] db.experiments[k],
                    db.experiments[b],
                )) && (forall|k: int|
                0 <= k < b && is_candidate(db, k, a) ==> precedes(
                    db.experiments[b],
                    #[trigger] db.experiments[k],
                )),
            None => forall|k: int| 0 <= k < i ==> !is_candidate(db, k, a),
        },
    ensures
        match pick_from(db, a, i, best) {
            Some(c) => is_candidate(db, c, a) && (forall|k: int|
                is_candidate(db, k, a) ==> !precedes(
                    #[trigger] db.experiments[k],
                    db.experiments[c],
                )) && (forall|k: int|
                0 <= k < c && is_candidate(db, k, a) ==> precedes(
                    db.experiments[c],
                    #[trigger] db.experiments[k],
                )),
            None => forall|k: int| !is_candidate(db, k, a),
        },
    decreases db.experiments.len() - i,
{
    if i < db.experiments.len() {
        let keep = if is_candidate(db, i, a) && (best is None || precedes(
            db.experiments[i],
            db.experiments[best->0],
        )) {
            Some(i)
        } else {
            best
        };
        lemma_pick_from_props(db, a, i + 1, keep);
    }
}

/// With unique names, the row found by name is the row itself.
pub proof fn lemma_find_exp_unique(s: Seq<SpecRecord>, ci: int)
    requires
        0 <= ci < s.len(),
        forall|i: int, j: int|
            0 <= i < j < s.len() ==> #[trigger] s[i].name != #[trigger] s[j].name,
    ensures
        find_exp(s, s[ci].name) == Some(ci),
{
    lemma_find_exp_props(s, s[ci].name, 0);
    match find_exp(s, s[ci].name) {
        Some(k) => {
            if k != ci {
                assert(s[k].name == s[ci].name);
                assert(false);
            }
        },
        None => {
            assert(s[ci].name == s[ci].name);
            assert(false);
        },
    }
}

// ---------------------------------------------------------------------
// Listing experiments by preference (priority, then age).
// ---------------------------------------------------------------------

/// Listing preference: higher priority first, then earlier creation.
pub open spec fn listing_precedes(a: SpecRecord, b: SpecRecord) -> bool {
    if a.priority != b.priority {
        a.priority > b.priority
    } else {
        a.created_at < b.created_at
    }
}

/// The most preferred row with the given status text after scanning `i..`,
/// starting from `best`; ties keep the earlier row.
pub open spec fn pick_status_from(
    s: Seq<SpecRecord>,
    status: Seq<char>,
    i: int,
    best: Option<int>,
) -> Option<int>
    decreases s.len() - i,
{
    if i < 0 || i >= s.len() {
        best
    } else {
        let keep = if s[i].status == status && (best is None || listing_precedes(
            s[i],
            s[best->0],
        )) {
            Some(i)
        } else {
            best
        };
        pick_status_from(s, status, i + 1, keep)
    }
}

/// The most preferred row with the given status text, if any.
pub open spec fn first_with_status(s: Seq<SpecRecord>, status: Seq<char>) -> Option<int> {
    pick_status_from(s, status, 0, None)
}

/// The rows of the first `i` with a status other than `excluded`, in order.
pub open spec fn filter_status_prefix(s: Seq<SpecRecord>, excluded: Seq<char>, i: int) -> Seq<
    SpecRecord,
>
    decreases i,
{
    if i <= 0 {
        Seq::empty()
    } else if s[i - 1].status != excluded {
        filter_status_prefix(s, excluded, i - 1).push(s[i - 1])
    } else {
        filter_status_prefix(s, excluded, i - 1)
    }
}

/// Insert `r` into a run of rows, before the first row it strictly
/// precedes: a stable insertion.
pub open spec fn sorted_insert(s: Seq<SpecRecord>, r: SpecRecord) -> Seq<SpecRecord>
    decreases s.len(),
{
    if s.len() == 0 {
        seq![r]
    } else if listing_precedes(r, s[0]) {
        seq![r] + s
    } else {
        seq![s[0]] + sorted_insert(s.drop_first(), r)
    }
}

/// Stable insertion sort by listing preference.
pub open spec fn sort_by_preference(s: Seq<SpecRecord>) -> Seq<SpecRecord>
    decreases s.len(),
{
    if s.len() == 0 {
        Seq::empty()
    } else {
        sorted_insert(sort_by_preference(s.drop_last()), s.last())
    }
}

/// Every experiment not yet Completed, in listing order.
pub open spec fn unfinished_records(db: SpecStore) -> Seq<SpecRecord> {
    sort_by_preference(filter_status_prefix(db.experiments, "completed"@, db.experiments.len() as int))
}

/// Convert a run of rows; the first bad row fails the lot.
pub open spec fn convert_from(s: Seq<SpecRecord>, i: int) -> Result<
    Seq<SpecExperiment>,
    crate::error::SpecError,
>
    decreases s.len() - i,
{
    if i < 0 || i >= s.len() {
        Ok(Seq::empty())
    } else {
        match rec_to_exp(s[i]) {
            Err(e) => Err(e),
            Ok(e) => match convert_from(s, i + 1) {
                Err(er) => Err(er),
                Ok(rest) => Ok(seq![e] + rest),
            },
        }
    }
}

/// A stable insertion lands exactly at the first position whose row the
/// inserted one strictly precedes.
pub proof fn lemma_sorted_insert_at(s: Seq<SpecRecord>, r: SpecRecord, j: int)
    requires
        0 <= j <= s.len(),
        forall|k: int| 0 <= k < j ==> !listing_precedes(r, #[trigger] s[k]),
        j < s.len() ==> listing_precedes(r, s[j]),
    ensures
        sorted_insert(s, r) == s.insert(j, r),
    decreases s.len(),
{
    if j == 0 {
        if s.len() == 0 {
            assert(sorted_insert(s, r) =~= s.insert(0, r));
        } else {
            assert(seq![r] + s =~= s.insert(0, r));
        }
    } else {
        assert(!listing_precedes(r, s[0]));
        lemma_sorted_insert_at(s.drop_first(), r, j - 1);
        assert(seq![s[0]] + s.drop_first().insert(j - 1, r) =~= s.insert(j, r));
    }
}

// ---------------------------------------------------------------------
// Step 3: the claim, and the whole step as one function of the state.
// ---------------------------------------------------------------------

/// The in-memory experiment after a claim at time `t`: Running, stamped
/// if this is its first run, assigned to the claimant.
pub open spec fn claim_exp(e: SpecExperiment, a: SpecAssignee, t: int) -> SpecExperiment {
    SpecExperiment {
        status: Status::Running,
        started_at: if e.started_at is None {
            Some(t)
        } else {
            e.started_at
        },
        assigned_to: Some(a),
        ..e
    }
}

/// The row after the same claim.
pub open spec fn claim_rec(r: SpecRecord, a: SpecAssignee, t: int) -> SpecRecord {
    SpecRecord {
        status: "running"@,
        started_at: if r.started_at is None {
            Some(t)
        } else {
            r.started_at
        },
        assigned_to: Some(spec_assignee_text(a)),
        ..r
    }
}

/// The outcome of one scheduling step.
pub enum SpecNextOutcome {
    /// A stored row did not decode; nothing was changed.
    Failed(crate::error::SpecError),
    /// No running experiment held, no eligible candidate; nothing changed.
    Nothing,
    /// An experiment for the caller: freshly claimed (`true`, store
    /// updated) or simply re-polled (`false`, store unchanged).
    Found(bool, SpecExperiment, SpecStore),
}

/// One scheduling step over the store, at clock reading `t`:
/// an already-running assignment is handed back unchanged; otherwise the
/// best queued candidate (pre-assigned first, then priority, then age) is
/// claimed: set Running, stamped, and assigned.
pub open spec fn next_spec(db: SpecStore, a: SpecAssignee, t: int) -> SpecNextOutcome {
    let a_str = spec_assignee_text(a);
    match find_running(db.experiments, a_str) {
        Some(i) => match rec_to_exp(db.experiments[i]) {
            Ok(e) => SpecNextOutcome::Found(false, e, db),
            Err(er) => SpecNextOutcome::Failed(er),
        },
        None => match chosen_candidate(db, a) {
            None => SpecNextOutcome::Nothing,
            Some(ci) => match rec_to_exp(db.experiments[ci]) {
                Err(er) => SpecNextOutcome::Failed(er),
                Ok(e0) => SpecNextOutcome::Found(
                    true,
                    claim_exp(e0, a, t),
                    SpecStore {
                        experiments: db.experiments.update(
                            ci,
                            claim_rec(db.experiments[ci], a, t),
                        ),
                        ..db
                    },
                ),
            },
        },
    }
}

/// Does the outcome of the executable `next` match `next_spec` at `t`?
pub open spec fn next_matches(
    db0: SpecStore,
    db1: SpecStore,
    a: SpecAssignee,
    t: int,
    r: Result<Option<(bool, Experiment)>, Error>,
) -> bool {
    match next_spec(db0, a, t) {
        SpecNextOutcome::Failed(er) => r is Err && r->Err_0@ == er && db1 == db0,
        SpecNextOutcome::Nothing => r is Ok && r->Ok_0 is None && db1 == db0,
        SpecNextOutcome::Found(fresh, e, s) => r is Ok && r->Ok_0 is Some && (r->Ok_0->0).0
            == fresh && (r->Ok_0->0).1@ == e && db1 == s,
    }
}

// ---------------------------------------------------------------------
// Executable helpers.
// ---------------------------------------------------------------------

/// Does the capability table advertise `cap` for `agent`?
fn has_capability(db: &Store, agent: &str, cap: &str) -> (r: bool)
    ensures
        r == spec_has_capability(db@, agent@, cap@),
{
    let n = db.capabilities.len();
    let mut i: usize = 0;
    while i < n
        invariant
            n == db.capabilities.len(),
            i <= n,
            db@.capabilities.len() == n,
            forall|j: int|
                0 <= j < i ==> !((#[trigger] db@.capabilities[j]).agent_name == agent@
                    && db@.capabilities[j].capability == cap@),
        decreases n - i,
    {
        assert(db@.capabilities[i as int] == db.capabilities@[i as int]@);
        if str_eq(db.capabilities[i].agent_name.as_str(), agent) && str_eq(
            db.capabilities[i].capability.as_str(),
            cap,
        ) {
            assert(spec_has_capability(db@, agent@, cap@));
            return true;
        }
        i += 1;
    }
    false
}

/// Executable mirror of [`precedes`].
fn precedes_exec(a: &crate::record::ExperimentRecord, b: &crate::record::ExperimentRecord) -> (r:
    bool)
    ensures
        r == precedes(a@, b@),
{
    let a_pre = a.assigned_to.is_some();
    let b_pre = b.assigned_to.is_some();
    if a_pre != b_pre {
        a_pre
    } else if a.priority != b.priority {
        a.priority > b.priority
    } else {
        a.created_at < b.created_at
    }
}

/// Executable mirror of [`is_candidate`].
fn is_candidate_exec(db: &Store, i: usize, assignee: &Assignee, text: &String) -> (r: bool)
    requires
        i < db@.experiments.len(),
        text@ == spec_assignee_text(assignee@),
    ensures
        r == is_candidate(db@, i as int, assignee@),
{
    assert(db@.experiments[i as int] == db.experiments@[i as int]@);
    let row = &db.experiments[i];
    if !str_eq(row.status.as_str(), "queued") {
        return false;
    }
    let assigned_ok = match &row.assigned_to {
        None => true,
        Some(s) => str_eq(s.as_str(), text.as_str()),
    };
    if !assigned_ok {
        return false;
    }
    match assignee {
        Assignee::CLI => true,
        Assignee::Agent(name) => match &row.requirement {
            None => true,
            Some(req) => has_capability(db, name.as_str(), req.as_str()),
        },
    }
}

/// Ghost image of an optional index.
pub open spec fn opt_index(o: Option<usize>) -> Option<int> {
    match o {
        Some(b) => Some(b as int),
        None => None,
    }
}

impl Experiment {
    /// Is some experiment row named `name` present?
    pub fn exists_named(db: &Store, name: &str) -> (r: Result<bool, Error>)
        ensures
            r == Ok::<bool, Error>(find_exp(db@.experiments, name@) is Some),
    {
        Ok(db.find_index(name).is_some())
    }

    /// The experiment named `name`, if present; a decoding failure of the
    /// stored row surfaces as an error.
    pub fn get(db: &Store, name: &str) -> (r: Result<Option<Experiment>, Error>)
        ensures
            match find_exp(db@.experiments, name@) {
                None => r == Ok::<Option<Experiment>, Error>(None),
                Some(i) => match rec_to_exp(db@.experiments[i]) {
                    Ok(e) => r is Ok && r->Ok_0 is Some && (r->Ok_0->0)@ == e,
                    Err(er) => r is Err && r->Err_0@ == er,
                },
            },
    {
        match db.find_index(name) {
            None => Ok(None),
            Some(i) => {
                proof {
                    lemma_find_exp_props(db@.experiments, name@, 0);
                }
                assert(db@.experiments[i as int] == db.experiments@[i as int]@);
                let record = db.experiments[i].duplicate();
                match record.into_experiment() {
                    Ok(e) => Ok(Some(e)),
                    Err(er) => Err(er),
                }
            },
        }
    }

    /// The running experiment assigned to this assignee, if any: the
    /// idempotent re-poll lookup, an exact match on the canonical text.
    pub fn run_by(db: &Store, assignee: &Assignee) -> (r: Result<Option<Experiment>, Error>)
        ensures
            ({
                let a_str = spec_assignee_text(assignee@);
                match find_running(db@.experiments, a_str) {
                    None => r == Ok::<Option<Experiment>, Error>(None),
                    Some(i) => match rec_to_exp(db@.experiments[i]) {
                        Ok(e) => r is Ok && r->Ok_0 is Some && (r->Ok_0->0)@ == e,
                        Err(er) => r is Err && r->Err_0@ == er,
                    },
                }
            }),
    {
        let text = assignee.to_string();
        let n = db.experiments.len();
        let mut i: usize = 0;
        while i < n
            invariant
                n == db.experiments.len(),
                i <= n,
                db@.experiments.len() == n,
                text@ == spec_assignee_text(assignee@),
                forall|j: int|
                    0 <= j < i ==> !is_running_for(
                        #[trigger] db@.experiments[j],
                        text@,
                    ),
            decreases n - i,
        {
            assert(db@.experiments[i as int] == db.experiments@[i as int]@);
            let row = &db.experiments[i];
            let hit = str_eq(row.status.as_str(), "running") && (match &row.assigned_to {
                Some(s) => str_eq(s.as_str(), text.as_str()),
                None => false,
            });
            if hit {
                proof {
                    lemma_find_running_skip(db@.experiments, text@, i as int);
                }
                let record = db.experiments[i].duplicate();
                return match record.into_experiment() {
                    Ok(e) => Ok(Some(e)),
                    Err(er) => Err(er),
                };
            }
            i += 1;
        }
        proof {
            lemma_find_running_skip(db@.experiments, text@, n as int);
        }
        Ok(None)
    }
}

/// Executable mirror of [`listing_precedes`].
fn listing_precedes_exec(a: &crate::record::ExperimentRecord, b: &crate::record::ExperimentRecord) -> (r: bool)
    ensures
        r == listing_precedes(a@, b@),
{
    if a.priority != b.priority {
        a.priority > b.priority
    } else {
        a.created_at < b.created_at
    }
}

impl Experiment {
    /// The most preferred experiment (higher priority first, then older)
    /// currently in the given status, if any.
    pub fn first_by_status(db: &Store, status: Status) -> (r: Result<Option<Experiment>, Error>)
        ensures
            (match first_with_status(db@.experiments, status.as_str_spec()) {
                None => r == Ok::<Option<Experiment>, Error>(None),
                Some(i) => match rec_to_exp(db@.experiments[i]) {
                    Ok(e) => r is Ok && r->Ok_0 is Some && (r->Ok_0->0)@ == e,
                    Err(er) => r is Err && r->Err_0@ == er,
                },
            }),
    {
        let text = status.to_str();
        let n = db.experiments.len();
        let mut best: Option<usize> = None;
        let mut i: usize = 0;
        while i < n
            invariant
                n == db.experiments.len(),
                db@.experiments.len() == n,
                i <= n,
                text@ == status.as_str_spec(),
                pick_status_from(db@.experiments, status.as_str_spec(), i as int, opt_index(best))
                    == first_with_status(db@.experiments, status.as_str_spec()),
                (match best {
                    Some(b) => b < i,
                    None => true,
                }),
            decreases n - i,
        {
            let ghost prev = opt_index(best);
            proof {
                assert(db@.experiments[i as int] == db.experiments@[i as int]@);
            }
            let same_status = str_eq(db.experiments[i].status.as_str(), text);
            let better = same_status && (match best {
                Some(b) => {
                    proof {
                        assert(db@.experiments[b as int] == db.experiments@[b as int]@);
                    }
                    listing_precedes_exec(&db.experiments[i], &db.experiments[b])
                },
                None => true,
            });
            if better {
                best = Some(i);
            }
            proof {
                assert(pick_status_from(db@.experiments, status.as_str_spec(), i as int, prev)
                    == pick_status_from(
                    db@.experiments,
                    status.as_str_spec(),
                    i as int + 1,
                    opt_index(best),
                ));
            }
            i += 1;
        }
        proof {
            assert(pick_status_from(db@.experiments, status.as_str_spec(), n as int, opt_index(best))
                == opt_index(best));
        }
        match best {
            None => Ok(None),
            Some(bi) => {
                proof {
                    assert(db@.experiments[bi as int] == db.experiments@[bi as int]@);
                }
                let record = db.experiments[bi].duplicate();
                match record.into_experiment() {
                    Ok(e) => Ok(Some(e)),
                    Err(er) => Err(er),
                }
            },
        }
    }

    /// Every experiment not yet Completed, most preferred first (higher
    /// priority, then older); the first undecodable row fails the call.
    #[verifier::rlimit(60)]
    pub fn unfinished(db: &Store) -> (r: Result<Vec<Experiment>, Error>)
        ensures
            (match convert_from(unfinished_records(db@), 0) {
                Ok(es) => r is Ok && r->Ok_0@.map_values(|e: Experiment| e@) == es,
                Err(er) => r is Err && r->Err_0@ == er,
            }),
    {
        let n = db.experiments.len();
        let mut sorted: Vec<crate::record::ExperimentRecord> = Vec::new();
        let mut i: usize = 0;
        while i < n
            invariant
                n == db.experiments.len(),
                db@.experiments.len() == n,
                i <= n,
                sorted@.map_values(|x: crate::record::ExperimentRecord| x@) == sort_by_preference(
                    filter_status_prefix(db@.experiments, "completed"@, i as int),
                ),
            decreases n - i,
        {
            proof {
                assert(db@.experiments[i as int] == db.experiments@[i as int]@);
            }
            let ghost fprev = filter_status_prefix(db@.experiments, "completed"@, i as int);
            let ghost sprev = sorted@.map_values(|x: crate::record::ExperimentRecord| x@);
            if !str_eq(db.experiments[i].status.as_str(), "completed") {
                let row = db.experiments[i].duplicate();
                let ghost rv = row@;
                let m = sorted.len();
                let mut j: usize = 0;
                let mut pos: usize = m;
                while j < m
                    invariant
                        m == sorted.len(),
                        sprev == sorted@.map_values(|x: crate::record::ExperimentRecord| x@),
                        sprev.len() == m,
                        j <= m,
                        rv == row@,
                        pos <= m,
                        (pos == m ==> forall|k2: int|
                            0 <= k2 < j ==> !listing_precedes(rv, #[trigger] sprev[k2])),
                        (pos < m ==> (forall|k2: int|
                            0 <= k2 < pos ==> !listing_precedes(rv, #[trigger] sprev[k2]))
                            && listing_precedes(rv, sprev[pos as int])),
                    decreases m - j,
                {
                    proof {
                        assert(sorted@[j as int]@ == sprev[j as int]);
                    }
                    if pos == m && listing_precedes_exec(&row, &sorted[j]) {
                        pos = j;
                    }
                    j += 1;
                }
                sorted.insert(pos, row);
                proof {
                    lemma_sorted_insert_at(sprev, rv, pos as int);
                    assert(sorted@.map_values(|x: crate::record::ExperimentRecord| x@)
                        =~= sprev.insert(pos as int, rv));
                    assert(filter_status_prefix(db@.experiments, "completed"@, i as int + 1)
                        == fprev.push(rv));
                    assert(fprev.push(rv).drop_last() =~= fprev);
                    assert(fprev.push(rv).last() == rv);
                    assert(sort_by_preference(fprev.push(rv)) == sorted_insert(
                        sort_by_preference(fprev),
                        rv,
                    ));
                }
            } else {
                proof {
                    assert(filter_status_prefix(db@.experiments, "completed"@, i as int + 1)
                        == fprev);
                }
            }
            i += 1;
        }
        let ghost recs = unfinished_records(db@);
        proof {
            assert(sorted@.map_values(|x: crate::record::ExperimentRecord| x@) == recs);
            assert(match convert_from(recs, 0) {
                Ok(es) => Seq::<SpecExperiment>::empty() + es =~= es,
                Err(_) => true,
            });
        }
        let mut out: Vec<Experiment> = Vec::new();
        proof {
            assert(out@.map_values(|e: Experiment| e@) =~= Seq::<SpecExperiment>::empty());
        }
        let m = sorted.len();
        let mut k: usize = 0;
        while k < m
            invariant
                m == sorted.len(),
                recs == unfinished_records(db@),
                sorted@.map_values(|x: crate::record::ExperimentRecord| x@) == recs,
                m == recs.len(),
                k <= m,
                (match convert_from(recs, k as int) {
                    Ok(es) => convert_from(recs, 0) == Ok::<
                        Seq<SpecExperiment>,
                        crate::error::SpecError,
                    >(out@.map_values(|e: Experiment| e@) + es),
                    Err(er) => convert_from(recs, 0) == Err::<
                        Seq<SpecExperiment>,
                        crate::error::SpecError,
                    >(er),
                }),
            decreases m - k,
        {
            proof {
                assert(sorted@[k as int]@ == recs[k as int]);
            }
            let record = sorted[k].duplicate();
            match record.into_experiment() {
                Err(er) => {
                    proof {
                        assert(convert_from(recs, k as int) == Err::<
                            Seq<SpecExperiment>,
                            crate::error::SpecError,
                        >(er@));
                    }
                    return Err(er);
                },
                Ok(e) => {
                    let ghost prev = out@.map_values(|e: Experiment| e@);
                    out.push(e);
                    proof {
                        assert(out@.map_values(|e: Experiment| e@) =~= prev.push(
                            out@[out@.len() - 1]@,
                        ));
                        assert(match convert_from(recs, k as int + 1) {
                            Ok(es) => prev.push(out@[out@.len() - 1]@) + es =~= prev + (seq![
                                out@[out@.len() - 1]@,
                            ] + es),
                            Err(_) => true,
                        });
                    }
                },
            }
            k += 1;
        }
        proof {
            assert(out@.map_values(|e: Experiment| e@) + Seq::<SpecExperiment>::empty()
                =~= out@.map_values(|e: Experiment| e@));
        }
        Ok(out)
    }

    /// Persist and adopt a new status. `started_at` is stamped on exactly
    /// the first transition into Running and never overwritten afterward;
    /// `completed_at` is stamped on the first transition out of Running to
    /// a non-Failed status and never overwritten afterward; Running to
    /// Failed stamps neither. The decision reads the pre-update state.
    #[verifier::rlimit(60)]
    pub fn set_status(&mut self, db: &mut Store, status: Status) -> (r: Result<(), Error>)
        requires
            old(db)@.wf(),
        ensures
            final(db)@.wf(),
            r is Ok,
            ({
                let stamp_start = status == Status::Running && old(self)@.started_at is None;
                let stamp_done = !stamp_start && old(self)@.status == Status::Running && old(
                    self,
                )@.completed_at is None && status != Status::Failed;
                &&& final(self)@ == (SpecExperiment {
                    status: status,
                    started_at: final(self)@.started_at,
                    completed_at: final(self)@.completed_at,
                    ..old(self)@
                })
                &&& (stamp_start ==> final(self)@.started_at is Some)
                &&& (!stamp_start ==> final(self)@.started_at == old(self)@.started_at)
                &&& (stamp_done ==> final(self)@.completed_at is Some)
                &&& (!stamp_done ==> final(self)@.completed_at == old(self)@.completed_at)
                &&& (match find_exp(old(db)@.experiments, old(self)@.name) {
                    None => final(db)@ == old(db)@,
                    Some(i) => final(db)@ == (SpecStore {
                        experiments: old(db)@.experiments.update(
                            i,
                            SpecRecord {
                                status: status.as_str_spec(),
                                started_at: if stamp_start {
                                    final(self)@.started_at
                                } else {
                                    old(db)@.experiments[i].started_at
                                },
                                completed_at: if stamp_done {
                                    final(self)@.completed_at
                                } else {
                                    old(db)@.experiments[i].completed_at
                                },
                                ..old(db)@.experiments[i]
                            },
                        ),
                        ..old(db)@
                    }),
                })
            }),
    {
        let idx = db.find_index(self.name.as_str());
        let stamp_start = status == Status::Running && self.started_at.is_none();
        let stamp_done = !stamp_start && self.status == Status::Running
            && self.completed_at.is_none() && status != Status::Failed;
        let now = now_millis();
        match idx {
            Some(i) => {
                proof {
                    lemma_find_exp_props(db@.experiments, self@.name, 0);
                }
                let mut row = self.remove_row(db, i);
                row.status = status.to_str().to_owned();
                if stamp_start {
                    row.started_at = Some(now);
                }
                if stamp_done {
                    row.completed_at = Some(now);
                }
                self.insert_row(db, i, row);
            },
            None => {},
        }
        if stamp_start {
            self.started_at = Some(now);
        }
        if stamp_done {
            self.completed_at = Some(now);
        }
        self.status = status;
        Ok(())
    }

    /// Persist and adopt a new assignment (or clear it with `None`).
    #[verifier::rlimit(60)]
    pub fn set_assigned_to(&mut self, db: &mut Store, assigned_to: Option<&Assignee>) -> (r:
        Result<(), Error>)
        requires
            old(db)@.wf(),
        ensures
            final(db)@.wf(),
            r is Ok,
            final(self)@ == (SpecExperiment {
                assigned_to: match assigned_to {
                    Some(a) => Some(a@),
                    None => None,
                },
                ..old(self)@
            }),
            (match find_exp(old(db)@.experiments, old(self)@.name) {
                None => final(db)@ == old(db)@,
                Some(i) => final(db)@ == (SpecStore {
                    experiments: old(db)@.experiments.update(
                        i,
                        SpecRecord {
                            assigned_to: match assigned_to {
                                Some(a) => Some(spec_assignee_text(a@)),
                                None => None,
                            },
                            ..old(db)@.experiments[i]
                        },
                    ),
                    ..old(db)@
                }),
            }),
    {
        match db.find_index(self.name.as_str()) {
            Some(i) => {
                proof {
                    lemma_find_exp_props(db@.experiments, self@.name, 0);
                }
                let mut row = self.remove_row(db, i);
                row.assigned_to = match assigned_to {
                    Some(a) => Some(a.to_string()),
                    None => None,
                };
                self.insert_row(db, i, row);
            },
            None => {},
        }
        self.assigned_to = match assigned_to {
            Some(a) => Some(a.duplicate()),
            None => None,
        };
        Ok(())
    }

    /// Persist and adopt the published report's URL.
    pub fn set_report_url(&mut self, db: &mut Store, url: &str) -> (r: Result<(), Error>)
        requires
            old(db)@.wf(),
        ensures
            final(db)@.wf(),
            r is Ok,
            final(self)@ == (SpecExperiment { report_url: Some(url@), ..old(self)@ }),
            (match find_exp(old(db)@.experiments, old(self)@.name) {
                None => final(db)@ == old(db)@,
                Some(i) => final(db)@ == (SpecStore {
                    experiments: old(db)@.experiments.update(
                        i,
                        SpecRecord { report_url: Some(url@), ..old(db)@.experiments[i] },
                    ),
                    ..old(db)@
                }),
            }),
    {
        match db.find_index(self.name.as_str()) {
            Some(i) => {
                proof {
                    lemma_find_exp_props(db@.experiments, self@.name, 0);
                }
                let mut row = self.remove_row(db, i);
                row.report_url = Some(url.to_owned());
                self.insert_row(db, i, row);
            },
            None => {},
        }
        self.report_url = Some(url.to_owned());
        Ok(())
    }

    /// The scheduling entry point. Step 1: an experiment already Running
    /// and assigned to this assignee is handed back as `(false, e)` with no
    /// mutation, so a crashed agent re-polling gets its job back. Step 2:
    /// otherwise the best eligible queued candidate (pre-assigned to this
    /// assignee first, then higher priority, then older) is claimed: set
    /// Running, stamped, assigned, and returned as `(true, e)`. `None` when
    /// nothing is eligible. The whole step follows [`next_spec`] at some
    /// clock reading `t`.
    pub fn next(db: &mut Store, assignee: &Assignee) -> (r: Result<
        Option<(bool, Experiment)>,
        Error,
    >)
        requires
            old(db)@.wf(),
        ensures
            final(db)@.wf(),
            exists|t: int| #[trigger] next_matches(old(db)@, final(db)@, assignee@, t, r),
    {
        let ghost db0 = db@;
        let found = Experiment::run_by(db, assignee);
        match found {
            Err(e) => {
                let res: Result<Option<(bool, Experiment)>, Error> = Err(e);
                proof {
                    assert(next_matches(db0, db@, assignee@, 0, res));
                }
                return res;
            },
            Ok(Some(e)) => {
                let res: Result<Option<(bool, Experiment)>, Error> = Ok(Some((false, e)));
                proof {
                    assert(next_matches(db0, db@, assignee@, 0, res));
                }
                return res;
            },
            Ok(None) => {},
        }
        let text = assignee.to_string();
        let n = db.experiments.len();
        let mut best: Option<usize> = None;
        let mut i: usize = 0;
        while i < n
            invariant
                db@ == db0,
                db0.wf(),
                n == db.experiments.len(),
                db@.experiments.len() == n,
                i <= n,
                text@ == spec_assignee_text(assignee@),
                pick_from(db0, assignee@, i as int, opt_index(best)) == chosen_candidate(
                    db0,
                    assignee@,
                ),
                (match best {
                    Some(b) => b < i && is_candidate(db0, b as int, assignee@),
                    None => true,
                }),
            decreases n - i,
        {
            let ghost prev = opt_index(best);
            proof {
                assert(db@.experiments[i as int] == db.experiments@[i as int]@);
            }
            let cand = is_candidate_exec(db, i, assignee, &text);
            let better = cand && (match best {
                Some(b) => {
                    proof {
                        assert(db@.experiments[b as int] == db.experiments@[b as int]@);
                    }
                    precedes_exec(&db.experiments[i], &db.experiments[b])
                },
                None => true,
            });
            if better {
                best = Some(i);
            }
            proof {
                assert(pick_from(db0, assignee@, i as int, prev) == pick_from(
                    db0,
                    assignee@,
                    i as int + 1,
                    opt_index(best),
                ));
            }
            i += 1;
        }
        proof {
            assert(pick_from(db0, assignee@, n as int, opt_index(best)) == opt_index(best));
        }
        match best {
            None => {
                let res: Result<Option<(bool, Experiment)>, Error> = Ok(None);
                proof {
                    assert(next_matches(db0, db@, assignee@, 0, res));
                }
                res
            },
            Some(ci) => {
                proof {
                    assert(db@.experiments[ci as int] == db.experiments@[ci as int]@);
                }
                let ghost rec = db0.experiments[ci as int];
                let record = db.experiments[ci].duplicate();
                match record.into_experiment() {
                    Err(er) => {
                        let res: Result<Option<(bool, Experiment)>, Error> = Err(er);
                        proof {
                            assert(next_matches(db0, db@, assignee@, 0, res));
                        }
                        res
                    },
                    Ok(mut experiment) => {
                        let ghost e0 = experiment@;
                        proof {
                            assert(e0.status == Status::Queued);
                            assert(e0.name == rec.name);
                            lemma_find_exp_unique(db0.experiments, ci as int);
                        }
                        match experiment.set_status(db, Status::Running) {
                            Ok(_) => {},
                            Err(e) => {
                                return Err(e);
                            },
                        }
                        let ghost db1 = db@;
                        let ghost e1 = experiment@;
                        proof {
                            assert(db1.experiments[ci as int].name == rec.name);
                            lemma_find_exp_unique(db1.experiments, ci as int);
                        }
                        match experiment.set_assigned_to(db, Some(assignee)) {
                            Ok(_) => {},
                            Err(e) => {
                                return Err(e);
                            },
                        }
                        let res: Result<Option<(bool, Experiment)>, Error> = Ok(
                            Some((true, experiment)),
                        );
                        proof {
                            let a = assignee@;
                            let t: int = if rec.started_at is None {
                                e1.started_at->0
                            } else {
                                0
                            };
                            assert(experiment@ =~= claim_exp(e0, a, t));
                            assert(db@.experiments =~= db0.experiments.update(
                                ci as int,
                                claim_rec(rec, a, t),
                            ));
                            assert(db@ =~= (SpecStore {
                                experiments: db0.experiments.update(
                                    ci as int,
                                    claim_rec(rec, a, t),
                                ),
                                ..db0
                            }));
                            assert(next_matches(db0, db@, a, t, res));
                        }
                        res
                    },
                }
            },
        }
    }

    /// Take row `i` out of the table, to put an updated copy back.
    fn remove_row(&self, db: &mut Store, i: usize) -> (row: crate::record::ExperimentRecord)
        requires
            i < old(db)@.experiments.len(),
        ensures
            row@ == old(db)@.experiments[i as int],
            final(db)@ == (SpecStore {
                experiments: old(db)@.experiments.remove(i as int),
                ..old(db)@
            }),
    {
        let row = db.experiments.remove(i);
        proof {
            assert(db@.experiments =~= old(db)@.experiments.remove(i as int));
            assert(db@ =~= (SpecStore { experiments: db@.experiments, ..old(db)@ }));
        }
        row
    }

    /// Put an updated row back at position `i`.
    fn insert_row(&self, db: &mut Store, i: usize, row: crate::record::ExperimentRecord)
        requires
            i <= old(db)@.experiments.len(),
        ensures
            final(db)@ == (SpecStore {
                experiments: old(db)@.experiments.insert(i as int, row@),
                ..old(db)@
            }),
    {
        let ghost rowv = row@;
        db.experiments.insert(i, row);
        proof {
            assert(db@.experiments =~= old(db)@.experiments.insert(i as int, rowv));
            assert(db@ =~= (SpecStore { experiments: db@.experiments, ..old(db)@ }));
        }
    }
}

} // verus!
