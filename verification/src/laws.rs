//! The scheduling laws, proved once and for all over [`next_spec`]:
//! idempotent re-polling, no double assignment, priority ordering,
//! pre-assignment precedence, and capability gating.

use vstd::prelude::*;
use crate::assignee::{
    lemma_assignee_round_trip, lemma_assignee_text_injective, spec_assignee_text,
    spec_assignee_wf, SpecAssignee,
};
use crate::record::{rec_to_exp, SpecExperiment};
use crate::scheduler::{
    chosen_candidate, claim_rec, find_running, is_candidate, is_running_for,
    lemma_find_running_props, lemma_pick_from_props, next_spec, precedes, SpecNextOutcome,
};
use crate::store::SpecStore;
use crate::types::Status;

verus! {

/// The status strings the laws tell apart are distinct.
proof fn lemma_status_literals()
    ensures
        "queued"@ != "running"@,
        Status::from_str_spec("running"@) == Some(Status::Running),
{
    reveal_strlit("queued");
    reveal_strlit("running");
    assert("queued"@.len() == 6);
    assert("running"@.len() == 7);
}

/// Law (idempotent re-poll): after `next` freshly claims experiment `e` for
/// a well-formed assignee, a second `next` for the same assignee, at any
/// clock reading and with no intervening change, returns the very same
/// experiment — same name, status and assignment — as a re-poll (`false`),
/// mutating nothing.
pub proof fn lemma_idempotent_re_poll(
    db: SpecStore,
    a: SpecAssignee,
    t1: int,
    t2: int,
    e: SpecExperiment,
    db1: SpecStore,
)
    requires
        db.wf(),
        spec_assignee_wf(a),
        next_spec(db, a, t1) == SpecNextOutcome::Found(true, e, db1),
    ensures
        ({
            let o = next_spec(db1, a, t2);
            &&& o is Found
            &&& !o->Found_0
            &&& o->Found_1.name == e.name
            &&& o->Found_1.status == e.status
            &&& o->Found_1.assigned_to == e.assigned_to
            &&& o->Found_2 == db1
        }),
{
    let a_str = spec_assignee_text(a);
    lemma_status_literals();
    lemma_find_running_props(db.experiments, a_str, 0);
    assert(find_running(db.experiments, a_str) is None);
    assert(chosen_candidate(db, a) is Some);
    lemma_pick_from_props(db, a, 0, None);
    let ci = chosen_candidate(db, a)->0;
    let rec = db.experiments[ci];
    assert(rec_to_exp(rec) is Ok);
    let rec1 = db1.experiments[ci];
    assert(rec1 == claim_rec(rec, a, t1));
    lemma_assignee_round_trip(a);
    lemma_find_running_props(db1.experiments, a_str, 0);
    match find_running(db1.experiments, a_str) {
        None => {
            assert(is_running_for(rec1, a_str));
            assert(false);
        },
        Some(k) => {
            if k != ci {
                assert(db1.experiments[k] == db.experiments[k]);
                assert(false);
            }
        },
    }
}

/// Law (no double assignment): once `next` has freshly claimed experiment
/// `e` for assignee `a`, a `next` for any other assignee cannot return that
/// experiment while it stays Running.
pub proof fn lemma_no_double_assignment(
    db: SpecStore,
    a: SpecAssignee,
    b: SpecAssignee,
    t1: int,
    t2: int,
    e: SpecExperiment,
    db1: SpecStore,
)
    requires
        db.wf(),
        a != b,
        next_spec(db, a, t1) == SpecNextOutcome::Found(true, e, db1),
    ensures
        ({
            let o = next_spec(db1, b, t2);
            o is Found ==> o->Found_1.name != e.name
        }),
{
    let a_str = spec_assignee_text(a);
    let b_str = spec_assignee_text(b);
    lemma_assignee_text_injective(a, b);
    lemma_status_literals();
    lemma_find_running_props(db.experiments, a_str, 0);
    assert(find_running(db.experiments, a_str) is None);
    assert(chosen_candidate(db, a) is Some);
    lemma_pick_from_props(db, a, 0, None);
    let ci = chosen_candidate(db, a)->0;
    let rec = db.experiments[ci];
    let rec1 = db1.experiments[ci];
    assert(rec1 == claim_rec(rec, a, t1));
    assert(e.name == rec.name);
    assert(forall|j: int|
        0 <= j < db1.experiments.len() && j != ci ==> db1.experiments[j]
            == db.experiments[j]);
    lemma_find_running_props(db1.experiments, b_str, 0);
    match find_running(db1.experiments, b_str) {
        Some(k) => {
            assert(k != ci);
            assert(db1.experiments[k].name != rec.name);
        },
        None => {
            lemma_pick_from_props(db1, b, 0, None);
            match chosen_candidate(db1, b) {
                None => {},
                Some(c) => {
                    assert(is_candidate(db1, c, b));
                    assert(c != ci);
                    assert(db1.experiments[c].name != rec.name);
                },
            }
        },
    }
}

/// Law (priority ordering): with nothing already running for the assignee,
/// and exactly two eligible queued unassigned experiments on offer, `next`
/// claims the one with the higher priority.
pub proof fn lemma_priority_order(db: SpecStore, a: SpecAssignee, t: int, i: int, j: int)
    requires
        db.wf(),
        find_running(db.experiments, spec_assignee_text(a)) is None,
        is_candidate(db, i, a),
        is_candidate(db, j, a),
        db.experiments[i].assigned_to is None,
        db.experiments[j].assigned_to is None,
        db.experiments[i].priority > db.experiments[j].priority,
        forall|k: int| is_candidate(db, k, a) ==> k == i || k == j,
        rec_to_exp(db.experiments[i]) is Ok,
    ensures
        ({
            let o = next_spec(db, a, t);
            &&& o is Found
            &&& o->Found_0
            &&& o->Found_1.name == db.experiments[i].name
        }),
{
    lemma_pick_from_props(db, a, 0, None);
    match chosen_candidate(db, a) {
        None => {
            assert(!is_candidate(db, i, a));
            assert(false);
        },
        Some(c) => {
            assert(c == i || c == j);
            if c == j && i != j {
                assert(precedes(db.experiments[i], db.experiments[j]));
                assert(false);
            }
        },
    }
}

/// Law (pre-assignment precedence, offered half): with nothing already
/// running for assignee `x`, if some candidate is pre-assigned to `x`, the
/// claimed candidate is a pre-assigned one — whatever priorities the
/// unassigned candidates carry.
pub proof fn lemma_pre_assignment_precedence(db: SpecStore, x: SpecAssignee, t: int, i: int)
    requires
        db.wf(),
        find_running(db.experiments, spec_assignee_text(x)) is None,
        is_candidate(db, i, x),
        db.experiments[i].assigned_to == Some(spec_assignee_text(x)),
    ensures
        chosen_candidate(db, x) is Some,
        db.experiments[chosen_candidate(db, x)->0].assigned_to == Some(spec_assignee_text(x)),
{
    lemma_pick_from_props(db, x, 0, None);
    match chosen_candidate(db, x) {
        None => {
            assert(!is_candidate(db, i, x));
            assert(false);
        },
        Some(c) => {
            if db.experiments[c].assigned_to is None {
                assert(precedes(db.experiments[i], db.experiments[c]));
                assert(false);
            }
            assert(is_candidate(db, c, x));
        },
    }
}

/// Law (pre-assignment precedence, withheld half): an experiment queued and
/// pre-assigned to some actor is never returned by `next` to an assignee
/// with a different canonical text.
pub proof fn lemma_pre_assignment_not_offered(db: SpecStore, y: SpecAssignee, t: int, i: int)
    requires
        db.wf(),
        0 <= i < db.experiments.len(),
        db.experiments[i].status == "queued"@,
        db.experiments[i].assigned_to is Some,
        db.experiments[i].assigned_to != Some(spec_assignee_text(y)),
    ensures
        ({
            let o = next_spec(db, y, t);
            o is Found ==> o->Found_1.name != db.experiments[i].name
        }),
{
    let y_str = spec_assignee_text(y);
    lemma_status_literals();
    lemma_find_running_props(db.experiments, y_str, 0);
    match find_running(db.experiments, y_str) {
        Some(k) => {
            assert(k != i);
            assert(db.experiments[k].name != db.experiments[i].name);
        },
        None => {
            lemma_pick_from_props(db, y, 0, None);
            match chosen_candidate(db, y) {
                None => {},
                Some(c) => {
                    assert(is_candidate(db, c, y));
                    assert(c != i);
                    assert(db.experiments[c].name != db.experiments[i].name);
                },
            }
        },
    }
}

/// Law (capability gating): an experiment queued with a requirement is
/// never returned by `next` to a named agent that does not advertise that
/// capability in the store.
pub proof fn lemma_capability_gating(db: SpecStore, agent: Seq<char>, t: int, i: int)
    requires
        db.wf(),
        0 <= i < db.experiments.len(),
        db.experiments[i].status == "queued"@,
        db.experiments[i].requirement is Some,
        !crate::scheduler::spec_has_capability(db, agent, db.experiments[i].requirement->0),
    ensures
        ({
            let o = next_spec(db, SpecAssignee::Agent(agent), t);
            o is Found ==> o->Found_1.name != db.experiments[i].name
        }),
{
    let y = SpecAssignee::Agent(agent);
    let y_str = spec_assignee_text(y);
    lemma_status_literals();
    lemma_find_running_props(db.experiments, y_str, 0);
    match find_running(db.experiments, y_str) {
        Some(k) => {
            assert(k != i);
            assert(db.experiments[k].name != db.experiments[i].name);
        },
        None => {
            lemma_pick_from_props(db, y, 0, None);
            match chosen_candidate(db, y) {
                None => {},
                Some(c) => {
                    assert(is_candidate(db, c, y));
                    assert(c != i);
                    assert(db.experiments[c].name != db.experiments[i].name);
                },
            }
        },
    }
}

} // verus!
