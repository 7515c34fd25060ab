//! The phases of a backup run and their order.
use vstd::prelude::*;
use core::cmp::Ordering;
use vstd::std_specs::cmp::PartialOrdSpecImpl;
use crate::text::{cat3, str_eq, str_lowercase, to_lowercase};

verus! {

/// A phase of a backup run. Phases run in the order they are declared.
#[derive(Debug, Clone, Copy, PartialEq, Eq, Structural, Ord)]
pub enum Step {
    Backup,
    Check,
    Forget,
    Sync,
}

/// The position of a phase in a run.
pub open spec fn rank(s: Step) -> nat {
    match s {
        Step::Backup => 0,
        Step::Check => 1,
        Step::Forget => 2,
        Step::Sync => 3,
    }
}

/// The phase whose (lowercase) name is `t`.
pub open spec fn step_named(t: Seq<char>) -> Option<Step> {
    if t == "backup"@ {
        Some(Step::Backup)
    } else if t == "check"@ {
        Some(Step::Check)
    } else if t == "forget"@ {
        Some(Step::Forget)
    } else if t == "sync"@ {
        Some(Step::Sync)
    } else {
        None
    }
}

/// The message for a name that is no phase.
pub open spec fn unknown_step_message(s: Seq<char>) -> Seq<char> {
    "unknown step '"@ + s + "'. valid values: backup, check, forget, sync"@
}

/// How two phases compare by their position.
pub open spec fn compare_steps(a: Step, b: Step) -> Ordering {
    if rank(a) < rank(b) {
        Ordering::Less
    } else if rank(a) == rank(b) {
        Ordering::Equal
    } else {
        Ordering::Greater
    }
}

impl Step {
    /// The position of the phase in a run.
    pub fn position(&self) -> (r: u8)
        ensures
            r == rank(*self),
    {
        match self {
            Step::Backup => 0,
            Step::Check => 1,
            Step::Forget => 2,
            Step::Sync => 3,
        }
    }

    /// Reads a phase from its name already put in lowercase; `given` is the name as
    /// the user gave it, quoted in the error.
    pub fn from_lowercase(lower: &str, given: &str) -> (r: Result<Step, String>)
        ensures
            match step_named(lower@) {
                Some(st) => r == Ok::<Step, String>(st),
                None => r matches Err(m) && m@ == unknown_step_message(given@),
            },
    {
        proof {
            reveal_strlit("backup");
            reveal_strlit("check");
            reveal_strlit("forget");
            reveal_strlit("sync");
        }
        if str_eq(lower, "backup") {
            Ok(Step::Backup)
        } else if str_eq(lower, "check") {
            Ok(Step::Check)
        } else if str_eq(lower, "forget") {
            Ok(Step::Forget)
        } else if str_eq(lower, "sync") {
            Ok(Step::Sync)
        } else {
            Err(cat3("unknown step '", given, "'. valid values: backup, check, forget, sync"))
        }
    }

    /// Reads a phase from its name, in any case.
    pub fn parse(s: &str) -> (r: Result<Step, String>)
        ensures
            match step_named(str_lowercase(s@)) {
                Some(st) => r == Ok::<Step, String>(st),
                None => r matches Err(m) && m@ == unknown_step_message(s@),
            },
    {
        let lower = to_lowercase(s);
        Step::from_lowercase(lower.as_str(), s)
    }
}

impl PartialOrd for Step {
    fn partial_cmp(&self, other: &Step) -> (r: Option<Ordering>) {
        let a = self.position();
        let b = other.position();
        if a < b {
            Some(Ordering::Less)
        } else if a == b {
            Some(Ordering::Equal)
        } else {
            Some(Ordering::Greater)
        }
    }
}

impl PartialOrdSpecImpl for Step {
    open spec fn obeys_partial_cmp_spec() -> bool {
        true
    }

    open spec fn partial_cmp_spec(&self, other: &Step) -> Option<Ordering> {
        Some(compare_steps(*self, *other))
    }
}

impl Default for Step {
    fn default() -> (r: Step)
        ensures
            r == Step::Backup,
    {
        Step::Backup
    }
}

impl core::str::FromStr for Step {
    type Err = String;

    fn from_str(s: &str) -> (r: Result<Step, String>)
        ensures
            match step_named(str_lowercase(s@)) {
                Some(st) => r == Ok::<Step, String>(st),
                None => r matches Err(m) && m@ == unknown_step_message(s@),
            },
    {
        Step::parse(s)
    }
}

/// The phases run in the order they are declared: `a < b` exactly when `a` comes
/// earlier in a run, and this order is total.
pub proof fn step_order_is_run_order(a: Step, b: Step)
    ensures
        (compare_steps(a, b) == Ordering::Less) <==> rank(a) < rank(b),
        (compare_steps(a, b) == Ordering::Equal) <==> a == b,
        (compare_steps(a, b) == Ordering::Greater) <==> rank(b) < rank(a),
        compare_steps(a, b) == Ordering::Less <==> compare_steps(b, a) == Ordering::Greater,
{
}

} // verus!
