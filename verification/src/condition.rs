//! The platform condition evaluator.
//!
//! Every known target carries a predicate over host facts (operating
//! system family, pointer width, compiler identity, endianness) that
//! says on which build hosts the entry applies. The predicate is a
//! small tree of logical combinators over fact comparisons, and its
//! evaluator is pure and total: a fact the host did not report makes a
//! comparison false, never an error.

use vstd::prelude::*;

verus! {

use vstd::string::StringExecFns;

/// The host facts a leaf predicate may name.
#[derive(Clone, Copy, Debug, PartialEq, Eq, Structural)]
pub enum HostFact {
    OsFamily,
    PointerWidth,
    Compiler,
    Endianness,
}

/// The snapshot of the build host that conditions are evaluated
/// against. A fact the probe did not report is `None`; a comparison
/// against such a fact is false by definition.
#[derive(Debug)]
pub struct HostFacts {
    pub os_family: Option<String>,
    pub pointer_width: Option<String>,
    pub compiler: Option<String>,
    pub endianness: Option<String>,
}

/// A platform-applicability predicate: a tree of logical combinators
/// over comparisons of one named host fact with an expected value.
#[derive(Debug)]
pub enum Condition {
    /// Holds on every host.
    AlwaysTrue,
    /// Holds where the inner condition does not.
    Not(Box<Condition>),
    /// Holds where both inner conditions hold.
    And(Box<Condition>, Box<Condition>),
    /// Holds where at least one inner condition holds.
    Or(Box<Condition>, Box<Condition>),
    /// Holds where the named host fact is reported and equals the
    /// expected value.
    FactEquals(HostFact, String),
}

/// The value the snapshot reports for a fact, if any.
pub open spec fn spec_fact(facts: HostFacts, key: HostFact) -> Option<Seq<char>> {
    let slot = match key {
        HostFact::OsFamily => facts.os_family,
        HostFact::PointerWidth => facts.pointer_width,
        HostFact::Compiler => facts.compiler,
        HostFact::Endianness => facts.endianness,
    };
    match slot {
        Some(s) => Some(s@),
        None => None,
    }
}

/// What a condition means on a host snapshot.
pub open spec fn spec_eval(c: Condition, facts: HostFacts) -> bool
    decreases c,
{
    match c {
        Condition::AlwaysTrue => true,
        Condition::Not(inner) => !spec_eval(*inner, facts),
        Condition::And(a, b) => spec_eval(*a, facts) && spec_eval(*b, facts),
        Condition::Or(a, b) => spec_eval(*a, facts) || spec_eval(*b, facts),
        Condition::FactEquals(key, expected) => spec_fact(facts, key) == Some(expected@),
    }
}

impl HostFacts {
    /// The reported value of a fact, if any.
    pub fn fact(&self, key: HostFact) -> (r: Option<&String>)
        ensures
            r matches Some(s) ==> spec_fact(*self, key) == Some(s@),
            r is None ==> spec_fact(*self, key) is None,
    {
        let slot = match key {
            HostFact::OsFamily => &self.os_family,
            HostFact::PointerWidth => &self.pointer_width,
            HostFact::Compiler => &self.compiler,
            HostFact::Endianness => &self.endianness,
        };
        slot.as_ref()
    }
}

/// Evaluates a condition against a host snapshot. Total: every
/// condition and every snapshot yield a boolean, an unreported fact
/// making its comparison false.
pub fn evaluate(condition: &Condition, facts: &HostFacts) -> (r: bool)
    ensures
        r == spec_eval(*condition, *facts),
    decreases *condition,
{
    match condition {
        Condition::AlwaysTrue => true,
        Condition::Not(inner) => !evaluate(inner, facts),
        Condition::And(a, b) => {
            let ra = evaluate(a, facts);
            ra && evaluate(b, facts)
        },
        Condition::Or(a, b) => {
            let ra = evaluate(a, facts);
            ra || evaluate(b, facts)
        },
        Condition::FactEquals(key, expected) => match facts.fact(*key) {
            Some(actual) => *actual == *expected,
            None => false,
        },
    }
}

/// `AlwaysTrue` holds on every host snapshot.
pub proof fn lemma_always_true(facts: HostFacts)
    ensures
        spec_eval(Condition::AlwaysTrue, facts) == true,
{
}

/// Negation: `Not(c)` holds exactly where `c` does not.
pub proof fn lemma_not_negates(c: Condition, facts: HostFacts)
    ensures
        spec_eval(Condition::Not(Box::new(c)), facts) == !spec_eval(c, facts),
{
}

/// De Morgan: the negation of a conjunction is the disjunction of the
/// negations.
pub proof fn lemma_de_morgan_and(a: Condition, b: Condition, facts: HostFacts)
    ensures
        spec_eval(Condition::Not(Box::new(Condition::And(Box::new(a), Box::new(b)))), facts)
            == spec_eval(
            Condition::Or(
                Box::new(Condition::Not(Box::new(a))),
                Box::new(Condition::Not(Box::new(b))),
            ),
            facts,
        ),
{
    let and_ab = Condition::And(Box::new(a), Box::new(b));
    assert(spec_eval(Condition::Not(Box::new(and_ab)), facts) == !spec_eval(and_ab, facts));
    let na = Condition::Not(Box::new(a));
    let nb = Condition::Not(Box::new(b));
    assert(spec_eval(Condition::Or(Box::new(na), Box::new(nb)), facts) == (spec_eval(na, facts)
        || spec_eval(nb, facts)));
}

/// De Morgan: the negation of a disjunction is the conjunction of the
/// negations.
pub proof fn lemma_de_morgan_or(a: Condition, b: Condition, facts: HostFacts)
    ensures
        spec_eval(Condition::Not(Box::new(Condition::Or(Box::new(a), Box::new(b)))), facts)
            == spec_eval(
            Condition::And(
                Box::new(Condition::Not(Box::new(a))),
                Box::new(Condition::Not(Box::new(b))),
            ),
            facts,
        ),
{
    let or_ab = Condition::Or(Box::new(a), Box::new(b));
    assert(spec_eval(Condition::Not(Box::new(or_ab)), facts) == !spec_eval(or_ab, facts));
    let na = Condition::Not(Box::new(a));
    let nb = Condition::Not(Box::new(b));
    assert(spec_eval(Condition::And(Box::new(na), Box::new(nb)), facts) == (spec_eval(na, facts)
        && spec_eval(nb, facts)));
}

/// The name of a host fact, for the diagnostic listing.
pub open spec fn spec_fact_name(key: HostFact) -> Seq<char> {
    match key {
        HostFact::OsFamily => "os_family"@,
        HostFact::PointerWidth => "pointer_width"@,
        HostFact::Compiler => "compiler"@,
        HostFact::Endianness => "endianness"@,
    }
}

/// The human-readable text of a condition, for the diagnostic
/// listing of known targets.
pub open spec fn spec_summary(c: Condition) -> Seq<char>
    decreases c,
{
    match c {
        Condition::AlwaysTrue => "always"@,
        Condition::Not(inner) => "not ("@ + spec_summary(*inner) + ")"@,
        Condition::And(a, b) => "("@ + spec_summary(*a) + " and "@ + spec_summary(*b) + ")"@,
        Condition::Or(a, b) => "("@ + spec_summary(*a) + " or "@ + spec_summary(*b) + ")"@,
        Condition::FactEquals(key, expected) => spec_fact_name(key) + " = "@ + expected@,
    }
}

impl Condition {
    /// Renders the condition as human-readable text.
    pub fn summary(&self) -> (r: String)
        ensures
            r@ == spec_summary(*self),
        decreases *self,
    {
        match self {
            Condition::AlwaysTrue => {
                let r = String::new().concat("always");
                proof {
                    reveal_strlit("always");
                    assert(r@ =~= spec_summary(*self));
                }
                r
            },
            Condition::Not(inner) => {
                let mut r = String::new().concat("not (");
                r.append(inner.summary().as_str());
                r.append(")");
                proof {
                    reveal_strlit("not (");
                    reveal_strlit(")");
                    assert(r@ =~= spec_summary(*self));
                }
                r
            },
            Condition::And(a, b) => {
                let mut r = String::new().concat("(");
                r.append(a.summary().as_str());
                r.append(" and ");
                r.append(b.summary().as_str());
                r.append(")");
                proof {
                    reveal_strlit("(");
                    reveal_strlit(" and ");
                    reveal_strlit(")");
                    assert(r@ =~= spec_summary(*self));
                }
                r
            },
            Condition::Or(a, b) => {
                let mut r = String::new().concat("(");
                r.append(a.summary().as_str());
                r.append(" or ");
                r.append(b.summary().as_str());
                r.append(")");
                proof {
                    reveal_strlit("(");
                    reveal_strlit(" or ");
                    reveal_strlit(")");
                    assert(r@ =~= spec_summary(*self));
                }
                r
            },
            Condition::FactEquals(key, expected) => {
                let mut r = match key {
                    HostFact::OsFamily => String::new().concat("os_family"),
                    HostFact::PointerWidth => String::new().concat("pointer_width"),
                    HostFact::Compiler => String::new().concat("compiler"),
                    HostFact::Endianness => String::new().concat("endianness"),
                };
                r.append(" = ");
                r.append(expected.as_str());
                proof {
                    reveal_strlit("os_family");
                    reveal_strlit("pointer_width");
                    reveal_strlit("compiler");
                    reveal_strlit("endianness");
                    reveal_strlit(" = ");
                    assert(r@ =~= spec_summary(*self));
                }
                r
            },
        }
    }
}

} // verus!
