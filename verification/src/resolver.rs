//! The closest-version resolver.
//!
//! Given the set of known versions a generated crate was validated
//! against and the version actually installed, pick the best match:
//! an exact match first; then the closest older patch on the same
//! minor line (falling back to the lowest known patch of that line);
//! then the closest older version across all lines; and `None` when
//! the installed version predates every known one, because no choice
//! is safe there.

use vstd::prelude::*;
use crate::version::{semver_triple, version_text, Version, VersionError};

verus! {

/// Why the resolver chose (or refused to choose) a version; one
/// category per rule of the resolution policy.
#[derive(Clone, Copy, Debug, PartialEq, Eq, Structural)]
pub enum ResolutionReason {
    /// The installed version is itself a known version.
    Exact,
    /// Closest older patch on the installed version's minor line.
    SameMinorOlder,
    /// The installed patch is below every known patch of its minor
    /// line; the lowest known patch of that line was chosen.
    SameMinorFallbackNewer,
    /// No known version shares the installed minor line; the closest
    /// older known version was chosen.
    CrossLineOlder,
    /// The installed version predates every known version; nothing
    /// was chosen.
    Unsupported,
}

impl ResolutionReason {
    /// The category's name in the build log.
    pub fn describe(&self) -> (r: &'static str)
        ensures
            r@ == spec_describe_reason(*self),
    {
        match self {
            ResolutionReason::Exact => "exact",
            ResolutionReason::SameMinorOlder => "same-minor-older",
            ResolutionReason::SameMinorFallbackNewer => "same-minor-fallback-newer",
            ResolutionReason::CrossLineOlder => "cross-line-older",
            ResolutionReason::Unsupported => "unsupported",
        }
    }
}

/// The log name of each resolution rule.
pub open spec fn spec_describe_reason(reason: ResolutionReason) -> Seq<char> {
    match reason {
        ResolutionReason::Exact => "exact"@,
        ResolutionReason::SameMinorOlder => "same-minor-older"@,
        ResolutionReason::SameMinorFallbackNewer => "same-minor-fallback-newer"@,
        ResolutionReason::CrossLineOlder => "cross-line-older"@,
        ResolutionReason::Unsupported => "unsupported"@,
    }
}

/// The resolver's answer: the chosen version, if any, and the rule
/// behind the choice.
#[derive(Clone, Copy, Debug)]
pub struct Resolution {
    pub chosen: Option<Version>,
    pub reason: ResolutionReason,
}

/// The resolution policy, as a relation between the known versions
/// `k`, the installed version `current`, and a candidate result `r`.
/// It depends only on which versions occur in `k`, not on their order.
pub open spec fn is_resolution(k: Seq<Version>, current: Version, r: Option<Version>) -> bool {
    if k.contains(current) {
        r == Some(current)
    } else if exists|v: Version| #[trigger] k.contains(v) && v.spec_same_minor(current) {
        if exists|v: Version|
            #[trigger] k.contains(v) && v.spec_same_minor(current) && v.spec_lt(current) {
            r matches Some(w) && k.contains(w) && w.spec_same_minor(current) && w.spec_lt(current)
                && (forall|v: Version|
                    #[trigger] k.contains(v) && v.spec_same_minor(current) && v.spec_lt(current)
                        ==> !w.spec_lt(v))
        } else {
            r matches Some(w) && k.contains(w) && w.spec_same_minor(current)
                && (forall|v: Version|
                    #[trigger] k.contains(v) && v.spec_same_minor(current) ==> !v.spec_lt(w))
        }
    } else if exists|v: Version| #[trigger] k.contains(v) && v.spec_lt(current) {
        r matches Some(w) && k.contains(w) && w.spec_lt(current)
            && (forall|v: Version|
                #[trigger] k.contains(v) && v.spec_lt(current) ==> !w.spec_lt(v))
    } else {
        r is None
    }
}

/// The rule category that the policy applies to `(k, current)`.
pub open spec fn spec_reason(k: Seq<Version>, current: Version) -> ResolutionReason {
    if k.contains(current) {
        ResolutionReason::Exact
    } else if exists|v: Version| #[trigger] k.contains(v) && v.spec_same_minor(current) {
        if exists|v: Version|
            #[trigger] k.contains(v) && v.spec_same_minor(current) && v.spec_lt(current) {
            ResolutionReason::SameMinorOlder
        } else {
            ResolutionReason::SameMinorFallbackNewer
        }
    } else if exists|v: Version| #[trigger] k.contains(v) && v.spec_lt(current) {
        ResolutionReason::CrossLineOlder
    } else {
        ResolutionReason::Unsupported
    }
}

/// Resolves `current` against the known versions and reports the rule
/// that decided, for the build log.
pub fn resolve_with_reason(known: &Vec<Version>, current: Version) -> (r: Resolution)
    ensures
        is_resolution(known@, current, r.chosen),
        r.reason == spec_reason(known@, current),
{
    let mut exact = false;
    let mut best_same_lt: Option<Version> = None;
    let mut min_same: Option<Version> = None;
    let mut best_lt: Option<Version> = None;
    let mut i: usize = 0;
    while i < known.len()
        invariant
            i <= known.len(),
            exact <==> exists|j: int| 0 <= j < i && known@[j] == current,
            best_same_lt matches Some(b) ==> (exists|j: int| 0 <= j < i && known@[j] == b)
                && b.spec_same_minor(current) && b.spec_lt(current),
            best_same_lt matches Some(b) ==> forall|j: int|
                0 <= j < i && (#[trigger] known@[j]).spec_same_minor(current)
                    && known@[j].spec_lt(current) ==> !b.spec_lt(known@[j]),
            best_same_lt is None ==> forall|j: int|
                0 <= j < i ==> !((#[trigger] known@[j]).spec_same_minor(current)
                    && known@[j].spec_lt(current)),
            min_same matches Some(m) ==> (exists|j: int| 0 <= j < i && known@[j] == m)
                && m.spec_same_minor(current),
            min_same matches Some(m) ==> forall|j: int|
                0 <= j < i && (#[trigger] known@[j]).spec_same_minor(current)
                    ==> !known@[j].spec_lt(m),
            min_same is None ==> forall|j: int|
                0 <= j < i ==> !(#[trigger] known@[j]).spec_same_minor(current),
            best_lt matches Some(b) ==> (exists|j: int| 0 <= j < i && known@[j] == b)
                && b.spec_lt(current),
            best_lt matches Some(b) ==> forall|j: int|
                0 <= j < i && (#[trigger] known@[j]).spec_lt(current) ==> !b.spec_lt(known@[j]),
            best_lt is None ==> forall|j: int|
                0 <= j < i ==> !(#[trigger] known@[j]).spec_lt(current),
        decreases known.len() - i,
    {
        let v = known[i];
        if v == current {
            exact = true;
        }
        if v.is_same_minor(&current) {
            if v.is_lt(&current) {
                best_same_lt = match best_same_lt {
                    None => Some(v),
                    Some(b) => if b.is_lt(&v) { Some(v) } else { Some(b) },
                };
            }
            min_same = match min_same {
                None => Some(v),
                Some(m) => if v.is_lt(&m) { Some(v) } else { Some(m) },
            };
        }
        if v.is_lt(&current) {
            best_lt = match best_lt {
                None => Some(v),
                Some(b) => if b.is_lt(&v) { Some(v) } else { Some(b) },
            };
        }
        i += 1;
    }
    proof {
        lemma_bridge_index_element(known@, current, exact, best_same_lt, min_same, best_lt);
    }
    if exact {
        Resolution { chosen: Some(current), reason: ResolutionReason::Exact }
    } else {
        match best_same_lt {
            Some(b) => Resolution { chosen: Some(b), reason: ResolutionReason::SameMinorOlder },
            None => match min_same {
                Some(m) => Resolution {
                    chosen: Some(m),
                    reason: ResolutionReason::SameMinorFallbackNewer,
                },
                None => match best_lt {
                    Some(b) => Resolution {
                        chosen: Some(b),
                        reason: ResolutionReason::CrossLineOlder,
                    },
                    None => Resolution { chosen: None, reason: ResolutionReason::Unsupported },
                },
            },
        }
    }
}

/// Turns the index-quantified facts the resolver's loop accumulates
/// into the element-quantified form the policy is stated in.
proof fn lemma_bridge_index_element(
    k: Seq<Version>,
    current: Version,
    exact: bool,
    best_same_lt: Option<Version>,
    min_same: Option<Version>,
    best_lt: Option<Version>,
)
    requires
        exact <==> exists|j: int| 0 <= j < k.len() && k[j] == current,
        best_same_lt matches Some(b) ==> (exists|j: int| 0 <= j < k.len() && k[j] == b)
            && b.spec_same_minor(current) && b.spec_lt(current),
        best_same_lt matches Some(b) ==> forall|j: int|
            0 <= j < k.len() && (#[trigger] k[j]).spec_same_minor(current)
                && k[j].spec_lt(current) ==> !b.spec_lt(k[j]),
        best_same_lt is None ==> forall|j: int|
            0 <= j < k.len() ==> !((#[trigger] k[j]).spec_same_minor(current)
                && k[j].spec_lt(current)),
        min_same matches Some(m) ==> (exists|j: int| 0 <= j < k.len() && k[j] == m)
            && m.spec_same_minor(current),
        min_same matches Some(m) ==> forall|j: int|
            0 <= j < k.len() && (#[trigger] k[j]).spec_same_minor(current)
                ==> !k[j].spec_lt(m),
        min_same is None ==> forall|j: int|
            0 <= j < k.len() ==> !(#[trigger] k[j]).spec_same_minor(current),
        best_lt matches Some(b) ==> (exists|j: int| 0 <= j < k.len() && k[j] == b)
            && b.spec_lt(current),
        best_lt matches Some(b) ==> forall|j: int|
            0 <= j < k.len() && (#[trigger] k[j]).spec_lt(current) ==> !b.spec_lt(k[j]),
        best_lt is None ==> forall|j: int|
            0 <= j < k.len() ==> !(#[trigger] k[j]).spec_lt(current),
    ensures
        exact <==> k.contains(current),
        best_same_lt matches Some(b) ==> k.contains(b) && b.spec_same_minor(current)
            && b.spec_lt(current) && (forall|v: Version|
            #[trigger] k.contains(v) && v.spec_same_minor(current) && v.spec_lt(current)
                ==> !b.spec_lt(v)),
        best_same_lt is None ==> !(exists|v: Version|
            #[trigger] k.contains(v) && v.spec_same_minor(current) && v.spec_lt(current)),
        min_same matches Some(m) ==> k.contains(m) && m.spec_same_minor(current) && (forall|
            v: Version,
        |
            #[trigger] k.contains(v) && v.spec_same_minor(current) ==> !v.spec_lt(m)),
        min_same is None ==> !(exists|v: Version|
            #[trigger] k.contains(v) && v.spec_same_minor(current)),
        best_lt matches Some(b) ==> k.contains(b) && b.spec_lt(current) && (forall|v: Version|
            #[trigger] k.contains(v) && v.spec_lt(current) ==> !b.spec_lt(v)),
        best_lt is None ==> !(exists|v: Version| #[trigger] k.contains(v) && v.spec_lt(current)),
{
    assert forall|v: Version| #[trigger] k.contains(v) implies exists|j: int|
        0 <= j < k.len() && k[j] == v by {
        let j = choose|j: int| 0 <= j < k.len() && k[j] == v;
        assert(0 <= j < k.len() && k[j] == v);
    }
}

/// An exact match always wins: whenever the installed version is
/// itself known, the policy admits only that version as the result.
pub proof fn lemma_exact_match_wins(k: Seq<Version>, current: Version, r: Option<Version>)
    requires
        k.contains(current),
        is_resolution(k, current, r),
    ensures
        r == Some(current),
{
}

/// With a non-empty same-minor subset and no exact match, the result
/// is the greatest same-minor version below the installed one where
/// such a version exists, else the least member of the line.
pub proof fn lemma_same_minor_preference(k: Seq<Version>, current: Version, r: Option<Version>)
    requires
        is_resolution(k, current, r),
        !k.contains(current),
        exists|v: Version| #[trigger] k.contains(v) && v.spec_same_minor(current),
    ensures
        r is Some,
        k.contains(r->Some_0),
        r->Some_0.spec_same_minor(current),
        (exists|v: Version|
            #[trigger] k.contains(v) && v.spec_same_minor(current) && v.spec_lt(current))
            ==> r->Some_0.spec_lt(current) && (forall|v: Version|
            #[trigger] k.contains(v) && v.spec_same_minor(current) && v.spec_lt(current)
                ==> !r->Some_0.spec_lt(v)),
        !(exists|v: Version|
            #[trigger] k.contains(v) && v.spec_same_minor(current) && v.spec_lt(current))
            ==> (forall|v: Version|
            #[trigger] k.contains(v) && v.spec_same_minor(current) ==> !v.spec_lt(r->Some_0)),
{
}

/// With an empty same-minor subset and no exact match, the result is
/// the greatest known version below the installed one where such a
/// version exists, else nothing: an installed version that predates
/// every known one has no safe choice.
pub proof fn lemma_cross_line_rule(k: Seq<Version>, current: Version, r: Option<Version>)
    requires
        is_resolution(k, current, r),
        !k.contains(current),
        !(exists|v: Version| #[trigger] k.contains(v) && v.spec_same_minor(current)),
    ensures
        (exists|v: Version| #[trigger] k.contains(v) && v.spec_lt(current)) ==> r is Some
            && k.contains(r->Some_0) && r->Some_0.spec_lt(current) && (forall|v: Version|
            #[trigger] k.contains(v) && v.spec_lt(current) ==> !r->Some_0.spec_lt(v)),
        !(exists|v: Version| #[trigger] k.contains(v) && v.spec_lt(current)) ==> r is None,
{
}

/// The policy is a function: two results for the same known set and
/// installed version are equal. Resolving twice, in any registry
/// order, therefore yields the same answer.
pub proof fn lemma_resolution_unique(
    k: Seq<Version>,
    current: Version,
    r1: Option<Version>,
    r2: Option<Version>,
)
    requires
        is_resolution(k, current, r1),
        is_resolution(k, current, r2),
    ensures
        r1 == r2,
{
    if !k.contains(current) {
        if exists|v: Version| #[trigger] k.contains(v) && v.spec_same_minor(current) {
            let w1 = r1->Some_0;
            let w2 = r2->Some_0;
            assert(!w1.spec_lt(w2) && !w2.spec_lt(w1));
        } else if exists|v: Version| #[trigger] k.contains(v) && v.spec_lt(current) {
            let w1 = r1->Some_0;
            let w2 = r2->Some_0;
            assert(!w1.spec_lt(w2) && !w2.spec_lt(w1));
        }
    }
}

/// The order of the known set is irrelevant: two sequences holding
/// the same versions admit the same results.
pub proof fn lemma_registry_order_irrelevant(
    k1: Seq<Version>,
    k2: Seq<Version>,
    current: Version,
    r: Option<Version>,
)
    requires
        forall|v: Version| #[trigger] k1.contains(v) <==> #[trigger] k2.contains(v),
        is_resolution(k1, current, r),
    ensures
        is_resolution(k2, current, r),
{
    if exists|v: Version| #[trigger] k1.contains(v) && v.spec_same_minor(current) {
        let w = choose|v: Version| #[trigger] k1.contains(v) && v.spec_same_minor(current);
        assert(k2.contains(w) && w.spec_same_minor(current));
    }
    if exists|v: Version| #[trigger] k2.contains(v) && v.spec_same_minor(current) {
        let w = choose|v: Version| #[trigger] k2.contains(v) && v.spec_same_minor(current);
        assert(k1.contains(w) && w.spec_same_minor(current));
    }
    if exists|v: Version|
        #[trigger] k1.contains(v) && v.spec_same_minor(current) && v.spec_lt(current) {
        let w = choose|v: Version|
            #[trigger] k1.contains(v) && v.spec_same_minor(current) && v.spec_lt(current);
        assert(k2.contains(w) && w.spec_same_minor(current) && w.spec_lt(current));
    }
    if exists|v: Version|
        #[trigger] k2.contains(v) && v.spec_same_minor(current) && v.spec_lt(current) {
        let w = choose|v: Version|
            #[trigger] k2.contains(v) && v.spec_same_minor(current) && v.spec_lt(current);
        assert(k1.contains(w) && w.spec_same_minor(current) && w.spec_lt(current));
    }
    if exists|v: Version| #[trigger] k1.contains(v) && v.spec_lt(current) {
        let w = choose|v: Version| #[trigger] k1.contains(v) && v.spec_lt(current);
        assert(k2.contains(w) && w.spec_lt(current));
    }
    if exists|v: Version| #[trigger] k2.contains(v) && v.spec_lt(current) {
        let w = choose|v: Version| #[trigger] k2.contains(v) && v.spec_lt(current);
        assert(k1.contains(w) && w.spec_lt(current));
    }
    if !k1.contains(current) {
        if exists|v: Version| #[trigger] k1.contains(v) && v.spec_same_minor(current) {
            if exists|v: Version|
                #[trigger] k1.contains(v) && v.spec_same_minor(current) && v.spec_lt(current) {
                let w = r->Some_0;
                assert(k2.contains(w));
                assert forall|v: Version|
                    #[trigger] k2.contains(v) && v.spec_same_minor(current)
                        && v.spec_lt(current) implies !w.spec_lt(v) by {
                    assert(k1.contains(v));
                }
            } else {
                let w = r->Some_0;
                assert(k2.contains(w));
                assert forall|v: Version|
                    #[trigger] k2.contains(v) && v.spec_same_minor(current) implies !v.spec_lt(
                    w,
                ) by {
                    assert(k1.contains(v));
                }
            }
        } else if exists|v: Version| #[trigger] k1.contains(v) && v.spec_lt(current) {
            let w = r->Some_0;
            assert(k2.contains(w));
            assert forall|v: Version|
                #[trigger] k2.contains(v) && v.spec_lt(current) implies !w.spec_lt(v) by {
                assert(k1.contains(v));
            }
        }
    }
}

/// Appending a version to a sequence makes it contain exactly the old
/// versions and the new one.
proof fn lemma_push_contains(k: Seq<Version>, w: Version)
    ensures
        forall|x: Version| #[trigger] k.push(w).contains(x) <==> (k.contains(x) || x == w),
{
    assert forall|x: Version| #[trigger] k.push(w).contains(x) implies (k.contains(x) || x == w) by {
        let j = choose|j: int| 0 <= j < k.push(w).len() && k.push(w)[j] == x;
        if j < k.len() {
            assert(k[j] == x);
        }
    }
    assert forall|x: Version| (k.contains(x) || x == w) implies #[trigger] k.push(w).contains(x) by {
        if k.contains(x) {
            let j = choose|j: int| 0 <= j < k.len() && k[j] == x;
            assert(k.push(w)[j] == x);
        } else {
            assert(k.push(w)[k.len() as int] == w);
        }
    }
}

/// Resolution tightens toward the closest bound: adding a known
/// version strictly between the chosen result and the installed
/// version moves the choice to the added version.
pub proof fn lemma_monotonic_tightening(
    k: Seq<Version>,
    current: Version,
    chosen: Version,
    added: Version,
)
    requires
        is_resolution(k, current, Some(chosen)),
        (chosen.spec_lt(added) && added.spec_lt(current)) || (current.spec_lt(added)
            && added.spec_lt(chosen)),
    ensures
        is_resolution(k.push(added), current, Some(added)),
{
    lemma_push_contains(k, added);
    let kp = k.push(added);
    assert(!k.contains(current));
    assert(!kp.contains(current));
    assert(kp.contains(added));
    if exists|v: Version| #[trigger] k.contains(v) && v.spec_same_minor(current) {
        if exists|v: Version|
            #[trigger] k.contains(v) && v.spec_same_minor(current) && v.spec_lt(current) {
            // chosen is the greatest older same-minor version; added
            // lies strictly between it and current, hence on the same
            // minor line, and becomes the new greatest.
            assert(chosen.spec_lt(added) && added.spec_lt(current));
            assert(added.spec_same_minor(current));
            assert(kp.contains(added) && added.spec_same_minor(current)
                && added.spec_lt(current));
        } else {
            // chosen is the least same-minor version, every member of
            // the line lies above current; added lies strictly between
            // current and chosen and becomes the new least.
            assert(current.spec_lt(added) && added.spec_lt(chosen));
            assert(added.spec_same_minor(current));
            assert(forall|v: Version|
                #[trigger] kp.contains(v) && v.spec_same_minor(current)
                    ==> !v.spec_lt(added));
            assert(!(exists|v: Version|
                #[trigger] kp.contains(v) && v.spec_same_minor(current)
                    && v.spec_lt(current)));
        }
    } else {
        // no known version shares the installed minor line, so chosen
        // is the greatest older version overall and chosen < current.
        assert(chosen.spec_lt(added) && added.spec_lt(current));
        if added.spec_same_minor(current) {
            assert(kp.contains(added) && added.spec_same_minor(current)
                && added.spec_lt(current));
            assert(forall|v: Version|
                #[trigger] kp.contains(v) && v.spec_same_minor(current)
                    && v.spec_lt(current) ==> !added.spec_lt(v));
        } else {
            assert(!(exists|v: Version|
                #[trigger] kp.contains(v) && v.spec_same_minor(current)));
            assert(forall|v: Version|
                #[trigger] kp.contains(v) && v.spec_lt(current) ==> !added.spec_lt(v));
        }
    }
}

/// Resolves the installed version `current` against the known
/// versions, returning the chosen known version or `None` when the
/// installed version predates every known one.
pub fn resolve(known: &Vec<Version>, current: Version) -> (r: Option<Version>)
    ensures
        is_resolution(known@, current, r),
{
    resolve_with_reason(known, current).chosen
}

/// The version a well-formed (major, minor, patch) triple denotes.
pub open spec fn version_of_triple(t: (u64, u64, u64)) -> Version {
    Version { major: t.0, minor: t.1, patch: t.2 }
}

/// Every string of the sequence parses as a version.
pub open spec fn all_parse(ks: Seq<&str>) -> bool {
    forall|i: int| 0 <= i < ks.len() ==> semver_triple((#[trigger] ks[i])@) is Some
}

/// The versions the strings of the sequence parse to; meaningful only
/// where `all_parse` holds.
pub open spec fn parsed_versions(ks: Seq<&str>) -> Seq<Version> {
    Seq::new(ks.len(), |i: int| version_of_triple(semver_triple(ks[i]@)->Some_0))
}

/// Resolves the installed version string `current` against the known
/// version strings, returning the chosen version formatted as
/// `"major.minor.patch"`, `None` where the installed version predates
/// every known one, and `InvalidVersion` where any input fails to
/// parse.
pub fn detect_closest_version(known: &[&str], current: &str) -> (r: Result<
    Option<String>,
    VersionError,
>)
    ensures
        r is Ok <==> all_parse(known@) && semver_triple(current@) is Some,
        r matches Err(e) ==> e == VersionError::InvalidVersion,
        r matches Ok(o) ==> {
            let c = version_of_triple(semver_triple(current@)->Some_0);
            &&& o is None ==> is_resolution(parsed_versions(known@), c, None)
            &&& o matches Some(s) ==> exists|v: Version|
                is_resolution(parsed_versions(known@), c, Some(v)) && s@ == version_text(v)
        },
{
    let mut versions: Vec<Version> = Vec::new();
    let mut i: usize = 0;
    while i < known.len()
        invariant
            i <= known.len(),
            versions@.len() == i,
            forall|j: int|
                0 <= j < i ==> semver_triple((#[trigger] known@[j])@) is Some,
            forall|j: int|
                0 <= j < i ==> #[trigger] versions@[j] == version_of_triple(
                    semver_triple(known@[j]@)->Some_0,
                ),
        decreases known.len() - i,
    {
        match Version::parse(known[i]) {
            Ok(v) => versions.push(v),
            Err(e) => {
                proof {
                    assert(semver_triple(known@[i as int]@) is None);
                }
                return Err(e);
            },
        }
        i += 1;
    }
    let current_version = match Version::parse(current) {
        Ok(c) => c,
        Err(e) => {
            return Err(e);
        },
    };
    proof {
        assert(versions@ =~= parsed_versions(known@));
    }
    match resolve(&versions, current_version) {
        Some(v) => {
            let text = v.text();
            proof {
                assert(is_resolution(parsed_versions(known@), current_version, Some(v))
                    && text@ == version_text(v));
            }
            Ok(Some(text))
        },
        None => Ok(None),
    }
}

} // verus!
