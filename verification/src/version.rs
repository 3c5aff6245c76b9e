//! The version model: a totally ordered (major, minor, patch) triple.
//!
//! Version strings are parsed through `semver` (trailing pre-release or
//! build metadata is accepted and ignored for ordering), and formatted
//! back as `"major.minor.patch"`.

use vstd::prelude::*;

verus! {

use vstd::string::StringExecFns;

/// A parsed native-library version: an ordered (major, minor, patch)
/// triple. Pre-release and build metadata, if the installed version
/// string carried any, is not part of the ordering key and is dropped
/// at parse time.
#[derive(Clone, Copy, Debug, PartialEq, Eq, Structural)]
pub struct Version {
    pub major: u64,
    pub minor: u64,
    pub patch: u64,
}

/// The error of the version model: the input string is not a version.
#[derive(Clone, Copy, Debug, PartialEq, Eq, Structural)]
pub enum VersionError {
    InvalidVersion,
}

impl Version {
    /// Strict order on versions: lexicographic on (major, minor, patch).
    pub open spec fn spec_lt(self, other: Version) -> bool {
        ||| self.major < other.major
        ||| (self.major == other.major && self.minor < other.minor)
        ||| (self.major == other.major && self.minor == other.minor && self.patch < other.patch)
    }

    /// Two versions on the same minor line: equal major and minor,
    /// any patch.
    pub open spec fn spec_same_minor(self, other: Version) -> bool {
        self.major == other.major && self.minor == other.minor
    }

    /// Decides the strict order `self < other`.
    pub fn is_lt(&self, other: &Version) -> (r: bool)
        ensures
            r == self.spec_lt(*other),
    {
        if self.major != other.major {
            self.major < other.major
        } else if self.minor != other.minor {
            self.minor < other.minor
        } else {
            self.patch < other.patch
        }
    }

    /// Decides whether `self` and `other` share a minor line.
    pub fn is_same_minor(&self, other: &Version) -> (r: bool)
        ensures
            r == self.spec_same_minor(*other),
    {
        self.major == other.major && self.minor == other.minor
    }
}

/// The (major, minor, patch) triple that `semver` reads out of a
/// version string, or `None` where `semver` rejects the string.
pub uninterp spec fn semver_triple(s: Seq<char>) -> Option<(u64, u64, u64)>;

/// Relies on `semver::Version::parse`: it reads `major.minor.patch`
/// (with optional pre-release or build metadata, which this model
/// ignores) and fails on anything else; the result depends on the
/// characters of the input alone.
#[verifier::external_body]
fn parse_semver(text: &str) -> (r: Result<Version, VersionError>)
    ensures
        r is Ok <==> semver_triple(text@) is Some,
        r matches Ok(v) ==> semver_triple(text@) == Some((v.major, v.minor, v.patch)),
        r matches Err(e) ==> e == VersionError::InvalidVersion,
{
    match semver::Version::parse(text) {
        Ok(v) => Ok(Version { major: v.major, minor: v.minor, patch: v.patch }),
        Err(_) => Err(VersionError::InvalidVersion),
    }
}

/// The decimal digits of `n`, most significant first.
pub open spec fn dec_str(n: nat) -> Seq<char>
    decreases n,
{
    if n < 10 {
        seq![dec_digit(n)]
    } else {
        dec_str(n / 10).push(dec_digit(n % 10))
    }
}

/// The character of a single decimal digit.
pub open spec fn dec_digit(d: nat) -> char {
    if d == 0 { '0' }
    else if d == 1 { '1' }
    else if d == 2 { '2' }
    else if d == 3 { '3' }
    else if d == 4 { '4' }
    else if d == 5 { '5' }
    else if d == 6 { '6' }
    else if d == 7 { '7' }
    else if d == 8 { '8' }
    else if d == 9 { '9' }
    else { ' ' }
}

/// Relies on std's decimal formatting of `u64`: the digits of `n`,
/// most significant first, no sign and no padding.
#[verifier::external_body]
fn u64_decimal(n: u64) -> (r: String)
    ensures
        r@ == dec_str(n as nat),
{
    format!("{}", n)
}

/// The text `"major.minor.patch"` of a version.
pub open spec fn version_text(v: Version) -> Seq<char> {
    dec_str(v.major as nat) + seq!['.'] + dec_str(v.minor as nat) + seq!['.'] + dec_str(
        v.patch as nat,
    )
}

impl Version {
    /// Parses a version string. Trailing pre-release or build metadata
    /// is accepted and dropped; anything malformed is `InvalidVersion`.
    pub fn parse(text: &str) -> (r: Result<Version, VersionError>)
        ensures
            r is Ok <==> semver_triple(text@) is Some,
            r matches Ok(v) ==> semver_triple(text@) == Some((v.major, v.minor, v.patch)),
            r matches Err(e) ==> e == VersionError::InvalidVersion,
    {
        parse_semver(text)
    }

    /// Formats the version as `"major.minor.patch"`.
    pub fn text(&self) -> (r: String)
        ensures
            r@ == version_text(*self),
    {
        let mut s = u64_decimal(self.major);
        s.append(".");
        s.append(u64_decimal(self.minor).as_str());
        s.append(".");
        s.append(u64_decimal(self.patch).as_str());
        proof {
            reveal_strlit(".");
            assert(s@ =~= version_text(*self));
        }
        s
    }
}

/// The order is total: of two distinct versions one is strictly below
/// the other, and never both.
pub proof fn lemma_order_total(a: Version, b: Version)
    ensures
        a.spec_lt(b) ==> !b.spec_lt(a),
        !a.spec_lt(b) && !b.spec_lt(a) ==> a == b,
{
}

/// The order is transitive.
pub proof fn lemma_order_transitive(a: Version, b: Version, c: Version)
    ensures
        a.spec_lt(b) && b.spec_lt(c) ==> a.spec_lt(c),
{
}

} // verus!
