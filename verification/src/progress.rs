//! Progress accounting: each non-skipped crate of an experiment owes one
//! result per toolchain side, two in all; the completed fraction and the
//! crates still owing results are derived from the result table.

use vstd::prelude::*;
use crate::codec::decode_crate_payload;
use crate::error::{Error, SpecError};
use crate::record::Experiment;
use crate::store::{SpecCrateRecord, SpecResultRecord, SpecStore, Store};
use crate::strutil::str_eq;
use vstd::arithmetic::div_mod::{
    lemma_div_is_ordered, lemma_fundamental_div_mod, lemma_mod_division_less_than_divisor,
};

verus! {

/// How many result rows of `s` at or after `i` belong to experiment `name`.
pub open spec fn results_count_from(s: Seq<SpecResultRecord>, name: Seq<char>, i: int) -> int
    decreases s.len() - i,
{
    if i < 0 || i >= s.len() {
        0
    } else {
        (if s[i].experiment == name {
            1int
        } else {
            0int
        }) + results_count_from(s, name, i + 1)
    }
}

/// How many result rows belong to experiment `name`.
pub open spec fn results_count(s: Seq<SpecResultRecord>, name: Seq<char>) -> int {
    results_count_from(s, name, 0)
}

/// How many non-skipped crate rows of `s` at or after `i` belong to `name`.
pub open spec fn active_crates_from(s: Seq<SpecCrateRecord>, name: Seq<char>, i: int) -> int
    decreases s.len() - i,
{
    if i < 0 || i >= s.len() {
        0
    } else {
        (if s[i].experiment == name && !s[i].skipped {
            1int
        } else {
            0int
        }) + active_crates_from(s, name, i + 1)
    }
}

/// How many non-skipped crate rows belong to experiment `name`.
pub open spec fn active_crates(s: Seq<SpecCrateRecord>, name: Seq<char>) -> int {
    active_crates_from(s, name, 0)
}

/// How many result rows of `name` carry this crate payload, at or after `i`.
pub open spec fn crate_results_from(
    s: Seq<SpecResultRecord>,
    name: Seq<char>,
    payload: Seq<char>,
    i: int,
) -> int
    decreases s.len() - i,
{
    if i < 0 || i >= s.len() {
        0
    } else {
        (if s[i].experiment == name && s[i].payload == payload {
            1int
        } else {
            0int
        }) + crate_results_from(s, name, payload, i + 1)
    }
}

/// How many result rows of `name` carry this crate payload.
pub open spec fn crate_results(s: Seq<SpecResultRecord>, name: Seq<char>, payload: Seq<char>) -> int {
    crate_results_from(s, name, payload, 0)
}

pub proof fn lemma_results_count_bound(s: Seq<SpecResultRecord>, name: Seq<char>, i: int)
    requires
        0 <= i <= s.len(),
    ensures
        0 <= results_count_from(s, name, i) <= s.len() - i,
    decreases s.len() - i,
{
    if i < s.len() {
        lemma_results_count_bound(s, name, i + 1);
    }
}

pub proof fn lemma_active_crates_bound(s: Seq<SpecCrateRecord>, name: Seq<char>, i: int)
    requires
        0 <= i <= s.len(),
    ensures
        0 <= active_crates_from(s, name, i) <= s.len() - i,
    decreases s.len() - i,
{
    if i < s.len() {
        lemma_active_crates_bound(s, name, i + 1);
    }
}

/// The displayed percentage: `ceil(c * 100 / e)` for a nonzero expectation,
/// 0 otherwise, saturated at the greatest displayable value.
pub open spec fn progress_pct(c: int, e: int) -> int {
    if e == 0 {
        0
    } else {
        let p = (c * 100 + e - 1) / e;
        if p > 255 {
            255
        } else {
            p
        }
    }
}

/// The crates of experiment `name` from row `i` on, each decoded from its
/// payload; the first undecodable payload fails the lot.
pub open spec fn crates_of_from(s: Seq<SpecCrateRecord>, name: Seq<char>, i: int) -> Result<
    Seq<Seq<char>>,
    Seq<char>,
>
    decreases s.len() - i,
{
    if i < 0 || i >= s.len() {
        Ok(Seq::empty())
    } else if s[i].experiment != name {
        crates_of_from(s, name, i + 1)
    } else {
        match crate::codec::json_parse_text(s[i].payload) {
            None => Err(s[i].payload),
            Some(t) => match crates_of_from(s, name, i + 1) {
                Err(e) => Err(e),
                Ok(ts) => Ok(seq![t] + ts),
            },
        }
    }
}

/// All crates of experiment `name`, in table order.
pub open spec fn crates_of(s: Seq<SpecCrateRecord>, name: Seq<char>) -> Result<
    Seq<Seq<char>>,
    Seq<char>,
> {
    crates_of_from(s, name, 0)
}

/// The crates of `name` with fewer than two recorded results, from row `i`.
pub open spec fn uncompleted_from(db: SpecStore, name: Seq<char>, i: int) -> Result<
    Seq<Seq<char>>,
    Seq<char>,
>
    decreases db.crates.len() - i,
{
    if i < 0 || i >= db.crates.len() {
        Ok(Seq::empty())
    } else if db.crates[i].experiment != name || crate_results(
        db.results,
        name,
        db.crates[i].payload,
    ) >= 2 {
        uncompleted_from(db, name, i + 1)
    } else {
        match crate::codec::json_parse_text(db.crates[i].payload) {
            None => Err(db.crates[i].payload),
            Some(t) => match uncompleted_from(db, name, i + 1) {
                Err(e) => Err(e),
                Ok(ts) => Ok(seq![t] + ts),
            },
        }
    }
}

/// The crates of `name` still owing results, in table order.
pub open spec fn uncompleted_of(db: SpecStore, name: Seq<char>) -> Result<
    Seq<Seq<char>>,
    Seq<char>,
> {
    uncompleted_from(db, name, 0)
}

/// How many results of `name` carry crate payload `payload`.
fn count_crate_results(db: &Store, name: &str, payload: &str) -> (r: usize)
    ensures
        r == crate_results(db@.results, name@, payload@),
{
    let n = db.results.len();
    let mut acc: usize = 0;
    let mut i: usize = 0;
    while i < n
        invariant
            n == db.results.len(),
            db@.results.len() == n,
            i <= n,
            acc <= i,
            crate_results(db@.results, name@, payload@) == acc + crate_results_from(
                db@.results,
                name@,
                payload@,
                i as int,
            ),
        decreases n - i,
    {
        assert(db@.results[i as int] == db.results@[i as int]@);
        let row = &db.results[i];
        if str_eq(row.experiment.as_str(), name) && str_eq(row.payload.as_str(), payload) {
            acc += 1;
        }
        i += 1;
    }
    acc
}

impl Experiment {
    /// `(completed_units, expected_units)`: the recorded result count, and
    /// two units per non-skipped crate.
    pub fn raw_progress(&self, db: &Store) -> (r: Result<(u32, u32), Error>)
        requires
            db@.results.len() <= u32::MAX,
            2 * db@.crates.len() <= u32::MAX,
        ensures
            r == Ok::<(u32, u32), Error>(
                (
                    results_count(db@.results, self@.name) as u32,
                    (2 * active_crates(db@.crates, self@.name)) as u32,
                ),
            ),
    {
        let n = db.results.len();
        let mut acc: usize = 0;
        let mut i: usize = 0;
        while i < n
            invariant
                n == db.results.len(),
                db@.results.len() == n,
                i <= n,
                acc <= i,
                results_count(db@.results, self@.name) == acc + results_count_from(
                    db@.results,
                    self@.name,
                    i as int,
                ),
            decreases n - i,
        {
            assert(db@.results[i as int] == db.results@[i as int]@);
            if str_eq(db.results[i].experiment.as_str(), self.name.as_str()) {
                acc += 1;
            }
            i += 1;
        }
        let results_len = acc;
        let m = db.crates.len();
        let mut crates_acc: usize = 0;
        let mut j: usize = 0;
        while j < m
            invariant
                m == db.crates.len(),
                db@.crates.len() == m,
                j <= m,
                crates_acc <= j,
                active_crates(db@.crates, self@.name) == crates_acc + active_crates_from(
                    db@.crates,
                    self@.name,
                    j as int,
                ),
            decreases m - j,
        {
            assert(db@.crates[j as int] == db.crates@[j as int]@);
            let row = &db.crates[j];
            if !row.skipped && str_eq(row.experiment.as_str(), self.name.as_str()) {
                crates_acc += 1;
            }
            j += 1;
        }
        Ok((results_len as u32, (crates_acc as u32) * 2))
    }

    /// The displayed completion percentage, by ceiling division so that a
    /// nonzero count never shows as 0 and a complete one shows exactly 100.
    pub fn progress(&self, db: &Store) -> (r: Result<u8, Error>)
        requires
            db@.results.len() <= u32::MAX,
            2 * db@.crates.len() <= u32::MAX,
        ensures
            r == Ok::<u8, Error>(
                progress_pct(
                    results_count(db@.results, self@.name),
                    2 * active_crates(db@.crates, self@.name),
                ) as u8,
            ),
    {
        let (completed, expected) = match self.raw_progress(db) {
            Ok(pair) => pair,
            Err(e) => {
                return Err(e);
            },
        };
        proof {
            lemma_results_count_bound(db@.results, self@.name, 0);
            lemma_active_crates_bound(db@.crates, self@.name, 0);
            assert(completed as int == results_count(db@.results, self@.name));
            assert(expected as int == 2 * active_crates(db@.crates, self@.name));
        }
        if expected != 0 {
            let num: u64 = (completed as u64) * 100 + (expected as u64) - 1;
            let v: u64 = num / (expected as u64);
            proof {
                lemma_fundamental_div_mod(num as int, expected as int);
                lemma_mod_division_less_than_divisor(num as int, expected as int);
            }
            assert(v == (completed as int * 100 + expected as int - 1) / (expected as int));
            if v > 255 {
                Ok(255)
            } else {
                Ok(v as u8)
            }
        } else {
            Ok(0)
        }
    }

    /// Every crate belonging to this experiment, decoded from its stored
    /// payload; an undecodable payload is a data error carrying that text.
    pub fn get_crates(&self, db: &Store) -> (r: Result<Vec<String>, Error>)
        ensures
            (match crates_of(db@.crates, self@.name) {
                Ok(ts) => r is Ok && r->Ok_0@.map_values(|t: String| t@) == ts,
                Err(p) => r is Err && r->Err_0@ == SpecError::BadCratePayload(p),
            }),
    {
        let n = db.crates.len();
        let mut out: Vec<String> = Vec::new();
        let mut i: usize = 0;
        while i < n
            invariant
                n == db.crates.len(),
                db@.crates.len() == n,
                i <= n,
                (match crates_of_from(db@.crates, self@.name, i as int) {
                    Ok(ts) => crates_of(db@.crates, self@.name) == Ok::<Seq<Seq<char>>, Seq<char>>(
                        out@.map_values(|t: String| t@) + ts,
                    ),
                    Err(p) => crates_of(db@.crates, self@.name) == Err::<
                        Seq<Seq<char>>,
                        Seq<char>,
                    >(p),
                }),
            decreases n - i,
        {
            assert(db@.crates[i as int] == db.crates@[i as int]@);
            let row = &db.crates[i];
            if str_eq(row.experiment.as_str(), self.name.as_str()) {
                match decode_crate_payload(row.payload.as_str()) {
                    None => {
                        return Err(Error::BadCratePayload(row.payload.clone()));
                    },
                    Some(t) => {
                        let ghost prev = out@.map_values(|t: String| t@);
                        out.push(t);
                        proof {
                            assert(out@.map_values(|t: String| t@) =~= prev.push(
                                out@[out@.len() - 1]@,
                            ));
                            assert(match crates_of_from(db@.crates, self@.name, i as int + 1) {
                                Ok(ts) => out@.map_values(|t: String| t@) + ts =~= prev
                                    + (seq![out@[out@.len() - 1]@] + ts),
                                Err(_) => true,
                            });
                        }
                    },
                }
            }
            i += 1;
        }
        proof {
            assert(out@.map_values(|t: String| t@) + Seq::<Seq<char>>::empty() =~= out@.map_values(
                |t: String| t@,
            ));
        }
        Ok(out)
    }

    /// The crates of this experiment with fewer than two recorded results:
    /// the work still owed. Empty means ready for reporting.
    pub fn get_uncompleted_crates(&self, db: &Store) -> (r: Result<Vec<String>, Error>)
        ensures
            (match uncompleted_of(db@, self@.name) {
                Ok(ts) => r is Ok && r->Ok_0@.map_values(|t: String| t@) == ts,
                Err(p) => r is Err && r->Err_0@ == SpecError::BadCratePayload(p),
            }),
    {
        let n = db.crates.len();
        let mut out: Vec<String> = Vec::new();
        let mut i: usize = 0;
        while i < n
            invariant
                n == db.crates.len(),
                db@.crates.len() == n,
                i <= n,
                (match uncompleted_from(db@, self@.name, i as int) {
                    Ok(ts) => uncompleted_of(db@, self@.name) == Ok::<Seq<Seq<char>>, Seq<char>>(
                        out@.map_values(|t: String| t@) + ts,
                    ),
                    Err(p) => uncompleted_of(db@, self@.name) == Err::<
                        Seq<Seq<char>>,
                        Seq<char>,
                    >(p),
                }),
            decreases n - i,
        {
            assert(db@.crates[i as int] == db.crates@[i as int]@);
            let row = &db.crates[i];
            if str_eq(row.experiment.as_str(), self.name.as_str()) && count_crate_results(
                db,
                self.name.as_str(),
                row.payload.as_str(),
            ) < 2 {
                match decode_crate_payload(row.payload.as_str()) {
                    None => {
                        return Err(Error::BadCratePayload(row.payload.clone()));
                    },
                    Some(t) => {
                        let ghost prev = out@.map_values(|t: String| t@);
                        out.push(t);
                        proof {
                            assert(out@.map_values(|t: String| t@) =~= prev.push(
                                out@[out@.len() - 1]@,
                            ));
                            assert(match uncompleted_from(db@, self@.name, i as int + 1) {
                                Ok(ts) => out@.map_values(|t: String| t@) + ts =~= prev
                                    + (seq![out@[out@.len() - 1]@] + ts),
                                Err(_) => true,
                            });
                        }
                    },
                }
            }
            i += 1;
        }
        proof {
            assert(out@.map_values(|t: String| t@) + Seq::<Seq<char>>::empty() =~= out@.map_values(
                |t: String| t@,
            ));
        }
        Ok(out)
    }
}

/// Laws of the displayed percentage, for `0 <= c <= e` (a correct run never
/// records more results than it expects): zero results show 0; complete
/// shows exactly 100; and the display never decreases as results arrive.
/// A display of 100 implies completion whenever `100 * (e - c) >= e`; for
/// very large expectations the ceiling may round `c < e` up to 100 too.
pub proof fn lemma_progress_bounds(c: int, e: int)
    requires
        0 <= c <= e,
    ensures
        c == 0 ==> progress_pct(c, e) == 0,
        e > 0 ==> progress_pct(c, e) <= 100,
        (e > 0 && c == e) ==> progress_pct(c, e) == 100,
        (c < e && 100 * (e - c) >= e) ==> progress_pct(c, e) < 100,
{
    if e > 0 {
        let x = c * 100 + e - 1;
        let q = x / e;
        lemma_fundamental_div_mod(x, e);
        lemma_mod_division_less_than_divisor(x, e);
        if c == 0 {
            assert(q == 0) by (nonlinear_arith)
                requires
                    x == e * q + x % e,
                    0 <= x % e < e,
                    x == e - 1,
                    e > 0,
            ;
        }
        if c == e {
            assert(q == 100) by (nonlinear_arith)
                requires
                    x == e * q + x % e,
                    0 <= x % e < e,
                    x == e * 101 - 1,
                    e > 0,
            ;
        }
        assert(q <= 100) by (nonlinear_arith)
            requires
                x == e * q + x % e,
                0 <= x % e < e,
                x == c * 100 + e - 1,
                0 <= c <= e,
                e > 0,
        ;
        if c < e && 100 * (e - c) >= e {
            assert(q < 100) by (nonlinear_arith)
                requires
                    x == e * q + x % e,
                    0 <= x % e < e,
                    x == c * 100 + e - 1,
                    100 * (e - c) >= e,
                    e > 0,
            ;
        }
    }
}

/// Law: with the crate set held fixed, the displayed percentage never
/// decreases as results are recorded.
pub proof fn lemma_progress_monotone(c1: int, c2: int, e: int)
    requires
        0 <= c1 <= c2,
        0 <= e,
    ensures
        progress_pct(c1, e) <= progress_pct(c2, e),
{
    if e > 0 {
        lemma_div_is_ordered(c1 * 100 + e - 1, c2 * 100 + e - 1, e);
    }
}

} // verus!
