//! The build orchestrator: the thin layer that sequences parsing,
//! resolution, platform filtering and merging, and reports the chosen
//! version with the rule that chose it. It performs no output itself:
//! it returns a structured plan or a typed error, and the caller
//! decides what to log and whether a failure aborts the build.

use vstd::prelude::*;
use crate::condition::{spec_eval, HostFacts};
use crate::errors::BuildError;
use crate::merge::{merge, spec_merge_ok, spec_merged, InstallationData, ResolvedConfig};
use crate::registry::{KnownTarget, LibraryType, Registry};
use crate::resolver::{
    is_resolution, resolve_with_reason, spec_reason, version_of_triple, ResolutionReason,
};
use crate::version::{semver_triple, Version};

verus! {

use crate::condition::evaluate;
use crate::resolver::lemma_resolution_unique;

/// The orchestrator's successful outcome: the merged configuration
/// and the resolution rule that chose its version, for the build log.
#[derive(Debug)]
pub struct BuildPlan {
    pub config: ResolvedConfig,
    pub reason: ResolutionReason,
}

/// The versions of the targets whose platform condition holds on the
/// host, in registry order.
pub open spec fn spec_eligible_versions(targets: Seq<KnownTarget>, facts: HostFacts) -> Seq<
    Version,
>
    decreases targets.len(),
{
    if targets.len() == 0 {
        Seq::empty()
    } else {
        let init = spec_eligible_versions(targets.drop_last(), facts);
        if spec_eval(targets.last().condition, facts) {
            init.push(targets.last().version)
        } else {
            init
        }
    }
}

/// The first target with the given version, if any.
pub open spec fn spec_first_match(targets: Seq<KnownTarget>, v: Version) -> Option<KnownTarget>
    decreases targets.len(),
{
    if targets.len() == 0 {
        None
    } else if targets[0].version == v {
        Some(targets[0])
    } else {
        spec_first_match(targets.drop_first(), v)
    }
}

/// The first target with the given version whose platform condition
/// holds on the host, if any.
pub open spec fn spec_first_eligible_match(
    targets: Seq<KnownTarget>,
    facts: HostFacts,
    v: Version,
) -> Option<KnownTarget>
    decreases targets.len(),
{
    if targets.len() == 0 {
        None
    } else if spec_eval(targets[0].condition, facts) && targets[0].version == v {
        Some(targets[0])
    } else {
        spec_first_eligible_match(targets.drop_first(), facts, v)
    }
}

/// Skipping targets whose version does not match leaves the first
/// match unchanged.
proof fn lemma_first_match_skip(targets: Seq<KnownTarget>, v: Version, i: int)
    requires
        0 <= i <= targets.len(),
        forall|j: int| 0 <= j < i ==> (#[trigger] targets[j]).version != v,
    ensures
        spec_first_match(targets, v) == spec_first_match(targets.skip(i), v),
    decreases i,
{
    if i > 0 {
        assert(targets[0].version != v);
        lemma_first_match_skip(targets.drop_first(), v, i - 1);
        assert(targets.drop_first().skip(i - 1) =~= targets.skip(i));
    } else {
        assert(targets.skip(0) =~= targets);
    }
}

/// Skipping targets that are ineligible or of another version leaves
/// the first eligible match unchanged.
proof fn lemma_first_eligible_skip(
    targets: Seq<KnownTarget>,
    facts: HostFacts,
    v: Version,
    i: int,
)
    requires
        0 <= i <= targets.len(),
        forall|j: int|
            0 <= j < i ==> !(spec_eval((#[trigger] targets[j]).condition, facts)
                && targets[j].version == v),
    ensures
        spec_first_eligible_match(targets, facts, v) == spec_first_eligible_match(
            targets.skip(i),
            facts,
            v,
        ),
    decreases i,
{
    if i > 0 {
        assert(!(spec_eval(targets[0].condition, facts) && targets[0].version == v));
        lemma_first_eligible_skip(targets.drop_first(), facts, v, i - 1);
        assert(targets.drop_first().skip(i - 1) =~= targets.skip(i));
    } else {
        assert(targets.skip(0) =~= targets);
    }
}

/// Every eligible version is the version of some eligible target.
proof fn lemma_eligible_member(targets: Seq<KnownTarget>, facts: HostFacts, v: Version)
    requires
        spec_eligible_versions(targets, facts).contains(v),
    ensures
        exists|j: int|
            0 <= j < targets.len() && spec_eval((#[trigger] targets[j]).condition, facts)
                && targets[j].version == v,
    decreases targets.len(),
{
    if targets.len() > 0 {
        let init = targets.drop_last();
        let einit = spec_eligible_versions(init, facts);
        let es = spec_eligible_versions(targets, facts);
        if spec_eval(targets.last().condition, facts) && targets.last().version == v {
            assert(targets[targets.len() - 1] == targets.last());
        } else {
            if spec_eval(targets.last().condition, facts) {
                let idx = choose|idx: int| 0 <= idx < es.len() && es[idx] == v;
                assert(idx < einit.len());
                assert(einit[idx] == v);
                assert(einit.contains(v));
            } else {
                assert(einit.contains(v));
            }
            lemma_eligible_member(init, facts, v);
            let j = choose|j: int|
                0 <= j < init.len() && spec_eval((#[trigger] init[j]).condition, facts)
                    && init[j].version == v;
            assert(targets[j] == init[j]);
        }
    }
}

/// Sequences the whole selection: checks the registry, honours an
/// explicit version override, parses the installed version, filters
/// the registry by platform condition, resolves the closest known
/// version, and merges the chosen target with the installation data.
#[verifier::loop_isolation(false)]
pub fn orchestrate(
    registry: &Registry,
    facts: &HostFacts,
    data: &InstallationData,
    override_version: Option<Version>,
    linkage_override: Option<LibraryType>,
) -> (r: Result<BuildPlan, BuildError>)
    ensures
        registry@.len() == 0 <==> r == Err::<BuildPlan, BuildError>(BuildError::EmptyRegistry),
        registry@.len() > 0 && override_version is Some ==> match spec_first_match(
            registry@,
            override_version->Some_0,
        ) {
            None => r == Err::<BuildPlan, BuildError>(BuildError::UnknownOverrideVersion),
            Some(t) => {
                &&& r is Ok <==> spec_merge_ok(t, data.bindings@)
                &&& r matches Ok(plan) ==> spec_merged(
                    plan.config,
                    t,
                    data.bindings@,
                    linkage_override,
                ) && plan.reason == ResolutionReason::Exact
                &&& r matches Err(e) ==> e == BuildError::MissingPathBinding
            },
        },
        registry@.len() > 0 && override_version is None ==> {
            if semver_triple(data.version@) is None {
                r == Err::<BuildPlan, BuildError>(BuildError::InvalidVersion)
            } else {
                let c = version_of_triple(semver_triple(data.version@)->Some_0);
                let ks = spec_eligible_versions(registry@, *facts);
                &&& (is_resolution(ks, c, None) ==> r == Err::<BuildPlan, BuildError>(BuildError::UnsupportedVersion))
                &&& forall|v: Version| #[trigger] is_resolution(ks, c, Some(v)) ==> {
                    let found = spec_first_eligible_match(registry@, *facts, v);
                    &&& found is Some
                    &&& (r is Ok <==> spec_merge_ok(found->Some_0, data.bindings@))
                    &&& (r matches Ok(plan) ==> spec_merged(
                        plan.config,
                        found->Some_0,
                        data.bindings@,
                        linkage_override,
                    ) && plan.reason == spec_reason(ks, c))
                    &&& (!spec_merge_ok(found->Some_0, data.bindings@) ==> r == Err::<BuildPlan, BuildError>(
                        BuildError::MissingPathBinding,
                    ))
                }
            }
        },
{
    let targets = registry.known_targets();
    if targets.len() == 0 {
        return Err(BuildError::EmptyRegistry);
    }
    match override_version {
        Some(ov) => {
            let mut i: usize = 0;
            while i < targets.len()
                invariant
                    i <= targets.len(),
                    forall|j: int| 0 <= j < i ==> (#[trigger] targets@[j]).version != ov,
                decreases targets.len() - i,
            {
                if targets[i].version == ov {
                    proof {
                        lemma_first_match_skip(targets@, ov, i as int);
                        assert(targets@.skip(i as int)[0] == targets@[i as int]);
                    }
                    return match merge(&targets[i], data, linkage_override) {
                        Ok(config) => Ok(BuildPlan { config, reason: ResolutionReason::Exact }),
                        Err(e) => Err(e),
                    };
                }
                i += 1;
            }
            proof {
                lemma_first_match_skip(targets@, ov, targets@.len() as int);
                assert(targets@.skip(targets@.len() as int) =~= Seq::<KnownTarget>::empty());
            }
            return Err(BuildError::UnknownOverrideVersion);
        },
        None => {},
    }
    let current = match Version::parse(data.version.as_str()) {
        Ok(c) => c,
        Err(_) => {
            return Err(BuildError::InvalidVersion);
        },
    };
    let mut eligible: Vec<Version> = Vec::new();
    let mut i: usize = 0;
    while i < targets.len()
        invariant
            i <= targets.len(),
            eligible@ == spec_eligible_versions(targets@.subrange(0, i as int), *facts),
        decreases targets.len() - i,
    {
        let holds = evaluate(&targets[i].condition, facts);
        if holds {
            eligible.push(targets[i].version);
        }
        proof {
            let pre = targets@.subrange(0, (i + 1) as int);
            assert(pre.drop_last() =~= targets@.subrange(0, i as int));
            assert(pre.last() == targets@[i as int]);
        }
        i += 1;
    }
    proof {
        assert(targets@.subrange(0, targets@.len() as int) =~= targets@);
    }
    let resolution = resolve_with_reason(&eligible, current);
    let ghost ks = spec_eligible_versions(registry@, *facts);
    match resolution.chosen {
        None => {
            proof {
                assert forall|v2: Version| !is_resolution(ks, current, Some(v2)) by {
                    if is_resolution(ks, current, Some(v2)) {
                        lemma_resolution_unique(ks, current, None, Some(v2));
                    }
                }
            }
            Err(BuildError::UnsupportedVersion)
        },
        Some(v) => {
            proof {
                assert forall|v2: Version| #[trigger] is_resolution(ks, current, Some(v2))
                    implies v2 == v by {
                    lemma_resolution_unique(ks, current, Some(v), Some(v2));
                }
            }
            let mut j: usize = 0;
            while j < targets.len()
                invariant
                    j <= targets.len(),
                    forall|l: int|
                        0 <= l < j ==> !(spec_eval(
                            (#[trigger] targets@[l]).condition,
                            *facts,
                        ) && targets@[l].version == v),
                decreases targets.len() - j,
            {
                let holds = evaluate(&targets[j].condition, facts);
                if holds && targets[j].version == v {
                    proof {
                        lemma_first_eligible_skip(targets@, *facts, v, j as int);
                        assert(targets@.skip(j as int)[0] == targets@[j as int]);
                    }
                    return match merge(&targets[j], data, linkage_override) {
                        Ok(config) => Ok(BuildPlan { config, reason: resolution.reason }),
                        Err(e) => Err(e),
                    };
                }
                j += 1;
            }
            proof {
                lemma_eligible_member(targets@, *facts, v);
                assert(false);
            }
            Err(BuildError::UnsupportedVersion)
        },
    }
}

} // verus!
