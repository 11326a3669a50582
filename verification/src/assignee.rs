//! The actor identity handed to the scheduler: a named agent or the local
//! command-line actor, with its canonical text form (`agent:<name>` / `cli`)
//! and the strict parser for that form.

use vstd::prelude::*;
use crate::strutil::{
    find_colon, first_colon, is_blank, is_blank_str, lemma_first_colon_props, str_eq,
};

verus! {

/// Ghost mirror of [`Assignee`].
pub enum SpecAssignee {
    Agent(Seq<char>),
    Cli,
}

/// Ghost mirror of [`AssigneeParseError`].
pub enum SpecParseError {
    Empty,
    UnexpectedPayload,
    InvalidKind(Seq<char>),
}

/// The actor an experiment is (or may be) assigned to.
#[derive(Clone, Debug, PartialEq, Eq)]
pub enum Assignee {
    /// A remote worker, identified by a non-blank name.
    Agent(String),
    /// The local command-line actor.
    CLI,
}

/// Why a textual assignee failed to parse.
#[derive(Clone, Debug, PartialEq, Eq)]
pub enum AssigneeParseError {
    /// The input, or the agent name in it, was empty or blank.
    Empty,
    /// The `cli` kind carried a payload, which it must not.
    UnexpectedPayload,
    /// The kind before the first `:` is neither `agent` nor `cli`.
    InvalidKind(String),
}

impl View for Assignee {
    type V = SpecAssignee;

    open spec fn view(&self) -> SpecAssignee {
        match self {
            Assignee::Agent(name) => SpecAssignee::Agent(name@),
            Assignee::CLI => SpecAssignee::Cli,
        }
    }
}

impl View for AssigneeParseError {
    type V = SpecParseError;

    open spec fn view(&self) -> SpecParseError {
        match self {
            AssigneeParseError::Empty => SpecParseError::Empty,
            AssigneeParseError::UnexpectedPayload => SpecParseError::UnexpectedPayload,
            AssigneeParseError::InvalidKind(kind) => SpecParseError::InvalidKind(kind@),
        }
    }
}

/// A well-formed assignee: an agent's name is never blank, so that the
/// canonical text form parses back to the same value.
pub open spec fn spec_assignee_wf(a: SpecAssignee) -> bool {
    match a {
        SpecAssignee::Agent(name) => !is_blank(name),
        SpecAssignee::Cli => true,
    }
}

/// The canonical text form: `agent:<name>` or `cli`.
pub open spec fn spec_assignee_text(a: SpecAssignee) -> Seq<char> {
    match a {
        SpecAssignee::Agent(name) => "agent:"@ + name,
        SpecAssignee::Cli => "cli"@,
    }
}

/// The decision table for parsing an assignee:
/// - blank input (the empty string among it): `Empty`;
/// - kind `agent` without a payload, or with a blank one: `Empty`;
/// - `agent:<name>`: the agent of that (unstripped) name;
/// - `cli` alone: the command-line actor;
/// - `cli:` with any payload, even empty: `UnexpectedPayload`;
/// - any other kind: `InvalidKind` carrying the kind.
pub open spec fn spec_parse_assignee(s: Seq<char>) -> Result<SpecAssignee, SpecParseError> {
    if is_blank(s) {
        Err(SpecParseError::Empty)
    } else {
        match first_colon(s) {
            None => {
                if s == "agent"@ {
                    Err(SpecParseError::Empty)
                } else if s == "cli"@ {
                    Ok(SpecAssignee::Cli)
                } else {
                    Err(SpecParseError::InvalidKind(s))
                }
            },
            Some(k) => {
                let kind = s.subrange(0, k);
                let payload = s.subrange(k + 1, s.len() as int);
                if kind == "agent"@ {
                    if is_blank(payload) {
                        Err(SpecParseError::Empty)
                    } else {
                        Ok(SpecAssignee::Agent(payload))
                    }
                } else if kind == "cli"@ {
                    Err(SpecParseError::UnexpectedPayload)
                } else {
                    Err(SpecParseError::InvalidKind(kind))
                }
            },
        }
    }
}

impl Assignee {
    /// The canonical text form, `agent:<name>` or `cli`.
    pub fn to_string(&self) -> (r: String)
        ensures
            r@ == spec_assignee_text(self@),
    {
        match self {
            Assignee::Agent(name) => String::from_str("agent:").concat(name.as_str()),
            Assignee::CLI => String::from_str("cli"),
        }
    }

    /// Parse the canonical text form, by the exact decision table of
    /// [`spec_parse_assignee`].
    pub fn from_str(input: &str) -> (r: Result<Assignee, AssigneeParseError>)
        ensures
            match r {
                Ok(a) => spec_parse_assignee(input@) == Ok::<SpecAssignee, SpecParseError>(a@),
                Err(e) => spec_parse_assignee(input@) == Err::<SpecAssignee, SpecParseError>(e@),
            },
    {
        if is_blank_str(input) {
            return Err(AssigneeParseError::Empty);
        }
        let n = input.unicode_len();
        match find_colon(input) {
            None => {
                if str_eq(input, "agent") {
                    Err(AssigneeParseError::Empty)
                } else if str_eq(input, "cli") {
                    Ok(Assignee::CLI)
                } else {
                    Err(AssigneeParseError::InvalidKind(input.to_owned()))
                }
            },
            Some(k) => {
                proof {
                    lemma_first_colon_props(input@, 0);
                }
                let kind = input.substring_char(0, k);
                let payload = input.substring_char(k + 1, n);
                if str_eq(kind, "agent") {
                    if is_blank_str(payload) {
                        Err(AssigneeParseError::Empty)
                    } else {
                        Ok(Assignee::Agent(payload.to_owned()))
                    }
                } else if str_eq(kind, "cli") {
                    Err(AssigneeParseError::UnexpectedPayload)
                } else {
                    Err(AssigneeParseError::InvalidKind(kind.to_owned()))
                }
            },
        }
    }

    /// A copy equal to `self`.
    pub fn duplicate(&self) -> (r: Assignee)
        ensures
            r@ == self@,
    {
        match self {
            Assignee::Agent(name) => Assignee::Agent(name.clone()),
            Assignee::CLI => Assignee::CLI,
        }
    }
}

impl AssigneeParseError {
    /// A short human-readable description.
    pub fn message(&self) -> String {
        match self {
            AssigneeParseError::Empty => String::from_str("the assignee is empty"),
            AssigneeParseError::UnexpectedPayload => String::from_str(
                "unexpected assignee payload",
            ),
            AssigneeParseError::InvalidKind(_) => String::from_str("invalid assignee kind"),
        }
    }
}

/// Distinct assignees have distinct canonical texts, so the store column
/// never confuses two actors.
pub proof fn lemma_assignee_text_injective(a: SpecAssignee, b: SpecAssignee)
    requires
        a != b,
    ensures
        spec_assignee_text(a) != spec_assignee_text(b),
{
    reveal_strlit("agent:");
    reveal_strlit("cli");
    assert("agent:"@.len() == 6);
    assert("cli"@.len() == 3);
    match (a, b) {
        (SpecAssignee::Agent(n1), SpecAssignee::Agent(n2)) => {
            if spec_assignee_text(a) == spec_assignee_text(b) {
                let s1 = "agent:"@ + n1;
                let s2 = "agent:"@ + n2;
                assert(s1 == spec_assignee_text(a) && s2 == spec_assignee_text(b));
                assert(s1.len() == 6 + n1.len());
                assert(s2.len() == 6 + n2.len());
                assert(n1.len() == n2.len());
                assert(s1.subrange(6, s1.len() as int) =~= n1);
                assert(s2.subrange(6, s2.len() as int) =~= n2);
                assert(false);
            }
        },
        _ => {},
    }
}

/// Law: formatting then parsing gives the value back, for every well-formed
/// assignee. (A blank agent name is the one exception: its text form
/// `agent:<blanks>` is rejected as `Empty`, which is why well-formedness
/// rules blank names out.)
pub proof fn lemma_assignee_round_trip(a: SpecAssignee)
    requires
        spec_assignee_wf(a),
    ensures
        spec_parse_assignee(spec_assignee_text(a)) == Ok::<SpecAssignee, SpecParseError>(a),
{
    reveal_strlit("agent:");
    reveal_strlit("agent");
    reveal_strlit("cli");
    match a {
        SpecAssignee::Cli => {
            let s = spec_assignee_text(a);
            assert(s[0] == 'c' && s[1] == 'l' && s[2] == 'i');
            assert(!is_blank(s));
            lemma_first_colon_props(s, 0);
            assert(first_colon(s) is None);
        },
        SpecAssignee::Agent(name) => {
            let s = spec_assignee_text(a);
            assert(s.len() == 6 + name.len());
            assert(s[0] == 'a' && s[1] == 'g' && s[2] == 'e' && s[3] == 'n' && s[4] == 't'
                && s[5] == ':');
            assert(!is_blank(s));
            lemma_first_colon_props(s, 0);
            let k = first_colon(s)->0;
            assert(first_colon(s) is Some);
            assert(k == 5);
            assert(s.subrange(0, 5) =~= "agent"@);
            assert(s.subrange(6, s.len() as int) =~= name);
            assert(!is_blank(name));
        },
    }
}

} // verus!
