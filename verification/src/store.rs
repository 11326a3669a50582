//! The in-memory model of the persistent relational store: one table per
//! entity, experiment names unique. Every scheduler call reads and writes
//! this state; nothing else arbitrates consistency.

use vstd::prelude::*;
use crate::codec::{encode_crate_payload, json_text_of};
use crate::record::{ExperimentRecord, SpecRecord};

verus! {

/// Ghost mirror of [`CrateRecord`].
pub struct SpecCrateRecord {
    pub experiment: Seq<char>,
    pub payload: Seq<char>,
    pub skipped: bool,
}

/// One crate assigned to an experiment; the payload column holds the
/// crate's JSON text form.
#[derive(Debug)]
pub struct CrateRecord {
    pub experiment: String,
    pub payload: String,
    pub skipped: bool,
}

impl View for CrateRecord {
    type V = SpecCrateRecord;

    open spec fn view(&self) -> SpecCrateRecord {
        SpecCrateRecord {
            experiment: self.experiment@,
            payload: self.payload@,
            skipped: self.skipped,
        }
    }
}

/// Ghost mirror of [`ResultRecord`].
pub struct SpecResultRecord {
    pub experiment: Seq<char>,
    pub payload: Seq<char>,
    pub toolchain: Seq<char>,
}

/// One recorded result unit: an experiment, a crate (JSON text form, as in
/// the crate table) and the toolchain side it ran under.
#[derive(Debug)]
pub struct ResultRecord {
    pub experiment: String,
    pub payload: String,
    pub toolchain: String,
}

impl View for ResultRecord {
    type V = SpecResultRecord;

    open spec fn view(&self) -> SpecResultRecord {
        SpecResultRecord {
            experiment: self.experiment@,
            payload: self.payload@,
            toolchain: self.toolchain@,
        }
    }
}

/// Ghost mirror of [`CapabilityRecord`].
pub struct SpecCapabilityRecord {
    pub agent_name: Seq<char>,
    pub capability: Seq<char>,
}

/// One capability tag advertised by an agent; many rows per agent.
#[derive(Debug)]
pub struct CapabilityRecord {
    pub agent_name: String,
    pub capability: String,
}

impl View for CapabilityRecord {
    type V = SpecCapabilityRecord;

    open spec fn view(&self) -> SpecCapabilityRecord {
        SpecCapabilityRecord { agent_name: self.agent_name@, capability: self.capability@ }
    }
}

/// Ghost mirror of [`Store`].
#[verifier::ext_equal]
pub struct SpecStore {
    pub experiments: Seq<SpecRecord>,
    pub crates: Seq<SpecCrateRecord>,
    pub results: Seq<SpecResultRecord>,
    pub capabilities: Seq<SpecCapabilityRecord>,
}

impl SpecStore {
    /// Well-formed: experiment names are unique (the primary key).
    pub open spec fn wf(self) -> bool {
        forall|i: int, j: int|
            0 <= i < j < self.experiments.len() ==> #[trigger] self.experiments[i].name
                != #[trigger] self.experiments[j].name
    }
}

/// Index of the first experiment row named `name` at or after `i`.
pub open spec fn find_exp_from(s: Seq<SpecRecord>, name: Seq<char>, i: int) -> Option<int>
    decreases s.len() - i,
{
    if i < 0 || i >= s.len() {
        None
    } else if s[i].name == name {
        Some(i)
    } else {
        find_exp_from(s, name, i + 1)
    }
}

/// Index of the experiment row named `name`, if any.
pub open spec fn find_exp(s: Seq<SpecRecord>, name: Seq<char>) -> Option<int> {
    find_exp_from(s, name, 0)
}

pub proof fn lemma_find_exp_skip(s: Seq<SpecRecord>, name: Seq<char>, i: int)
    requires
        0 <= i <= s.len(),
        forall|j: int| 0 <= j < i ==> s[j].name != name,
    ensures
        find_exp(s, name) == find_exp_from(s, name, i),
    decreases i,
{
    if i > 0 {
        lemma_find_exp_skip(s, name, i - 1);
    }
}

pub proof fn lemma_find_exp_props(s: Seq<SpecRecord>, name: Seq<char>, i: int)
    requires
        0 <= i <= s.len(),
    ensures
        match find_exp_from(s, name, i) {
            Some(k) => i <= k < s.len() && s[k].name == name && forall|j: int|
                i <= j < k ==> s[j].name != name,
            None => forall|j: int| i <= j < s.len() ==> s[j].name != name,
        },
    decreases s.len() - i,
{
    if i < s.len() && s[i].name != name {
        lemma_find_exp_props(s, name, i + 1);
    }
}

/// The shared relational state: experiments, their crates, recorded
/// results, and the agents' capability tags.
#[derive(Debug)]
pub struct Store {
    pub experiments: Vec<ExperimentRecord>,
    pub crates: Vec<CrateRecord>,
    pub results: Vec<ResultRecord>,
    pub capabilities: Vec<CapabilityRecord>,
}

impl View for Store {
    type V = SpecStore;

    open spec fn view(&self) -> SpecStore {
        SpecStore {
            experiments: self.experiments@.map_values(|r: ExperimentRecord| r@),
            crates: self.crates@.map_values(|r: CrateRecord| r@),
            results: self.results@.map_values(|r: ResultRecord| r@),
            capabilities: self.capabilities@.map_values(|r: CapabilityRecord| r@),
        }
    }
}

impl Store {
    /// An empty store.
    pub fn new() -> (r: Store)
        ensures
            r@.experiments.len() == 0,
            r@.crates.len() == 0,
            r@.results.len() == 0,
            r@.capabilities.len() == 0,
            r@.wf(),
    {
        Store { experiments: Vec::new(), crates: Vec::new(), results: Vec::new(), capabilities: Vec::new() }
    }

    /// Index of the experiment row with this name, if any.
    pub fn find_index(&self, name: &str) -> (r: Option<usize>)
        ensures
            match r {
                Some(k) => find_exp(self@.experiments, name@) == Some(k as int),
                None => find_exp(self@.experiments, name@) is None,
            },
    {
        let n = self.experiments.len();
        let mut i: usize = 0;
        while i < n
            invariant
                n == self.experiments.len(),
                i <= n,
                self@.experiments.len() == n,
                forall|j: int| 0 <= j < i ==> self@.experiments[j].name != name@,
            decreases n - i,
        {
            assert(self@.experiments[i as int] == self.experiments@[i as int]@);
            if crate::strutil::str_eq(self.experiments[i].name.as_str(), name) {
                proof {
                    lemma_find_exp_skip(self@.experiments, name@, i as int);
                }
                return Some(i);
            }
            i += 1;
        }
        proof {
            lemma_find_exp_skip(self@.experiments, name@, n as int);
        }
        None
    }

    /// Add an experiment row; refused (returning `false`, changing nothing)
    /// when the name is already taken, as the primary key demands.
    pub fn add_experiment(&mut self, record: ExperimentRecord) -> (r: bool)
        requires
            old(self)@.wf(),
        ensures
            final(self)@.wf(),
            r == (find_exp(old(self)@.experiments, record@.name) is None),
            r ==> final(self)@ == (SpecStore {
                experiments: old(self)@.experiments.push(record@),
                ..old(self)@
            }),
            !r ==> final(self)@ == old(self)@,
    {
        let ghost name = record@.name;
        match self.find_index(record.name.as_str()) {
            Some(_) => false,
            None => {
                proof {
                    lemma_find_exp_props(self@.experiments, name, 0);
                }
                let ghost n = self@.experiments.len();
                self.experiments.push(record);
                proof {
                    assert(self@.experiments =~= old(self)@.experiments.push(record@));
                    assert(self@ =~= SpecStore {
                        experiments: old(self)@.experiments.push(record@),
                        ..old(self)@
                    });
                    assert forall|i: int, j: int|
                        0 <= i < j < self@.experiments.len() implies #[trigger] self@.experiments[i].name
                        != #[trigger] self@.experiments[j].name by {
                        if j == n {
                            assert(self@.experiments[i] == old(self)@.experiments[i]);
                        }
                    }
                }
                true
            },
        }
    }

    /// Record a crate for an experiment; the payload column receives the
    /// crate's JSON text form, as the external crate-selection writer does.
    pub fn add_crate(&mut self, experiment: &str, name: &str, skipped: bool)
        ensures
            final(self)@ == (SpecStore {
                crates: old(self)@.crates.push(
                    SpecCrateRecord {
                        experiment: experiment@,
                        payload: json_text_of(name@),
                        skipped,
                    },
                ),
                ..old(self)@
            }),
    {
        let row = CrateRecord {
            experiment: experiment.to_owned(),
            payload: encode_crate_payload(name),
            skipped,
        };
        self.crates.push(row);
        proof {
            assert(self@.crates =~= old(self)@.crates.push(
                SpecCrateRecord { experiment: experiment@, payload: json_text_of(name@), skipped },
            ));
            assert(self@ =~= SpecStore { crates: self@.crates, ..old(self)@ });
        }
    }

    /// Record one result unit for (experiment, crate, toolchain side); the
    /// crate is stored in its JSON text form, matching the crate table.
    pub fn add_result(&mut self, experiment: &str, name: &str, toolchain: &str)
        ensures
            final(self)@ == (SpecStore {
                results: old(self)@.results.push(
                    SpecResultRecord {
                        experiment: experiment@,
                        payload: json_text_of(name@),
                        toolchain: toolchain@,
                    },
                ),
                ..old(self)@
            }),
    {
        let row = ResultRecord {
            experiment: experiment.to_owned(),
            payload: encode_crate_payload(name),
            toolchain: toolchain.to_owned(),
        };
        self.results.push(row);
        proof {
            assert(self@.results =~= old(self)@.results.push(
                SpecResultRecord {
                    experiment: experiment@,
                    payload: json_text_of(name@),
                    toolchain: toolchain@,
                },
            ));
            assert(self@ =~= SpecStore { results: self@.results, ..old(self)@ });
        }
    }

    /// Advertise a capability tag for an agent.
    pub fn add_capability(&mut self, agent_name: &str, capability: &str)
        ensures
            final(self)@ == (SpecStore {
                capabilities: old(self)@.capabilities.push(
                    SpecCapabilityRecord { agent_name: agent_name@, capability: capability@ },
                ),
                ..old(self)@
            }),
    {
        let row = CapabilityRecord {
            agent_name: agent_name.to_owned(),
            capability: capability.to_owned(),
        };
        self.capabilities.push(row);
        proof {
            assert(self@.capabilities =~= old(self)@.capabilities.push(
                SpecCapabilityRecord { agent_name: agent_name@, capability: capability@ },
            ));
            assert(self@ =~= SpecStore { capabilities: self@.capabilities, ..old(self)@ });
        }
    }
}

} // verus!
