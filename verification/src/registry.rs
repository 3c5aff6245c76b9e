//! The known-target registry: the immutable, crate-embedded set of
//! configurations a generated crate was validated against.
//!
//! Each entry pairs a native-library version with the platform
//! condition under which it applies and the build parameters (linkage
//! mode, path templates, linked libraries) recorded for it at
//! generation time. The registry is built once and only read.

use vstd::prelude::*;
use crate::condition::{spec_summary, Condition};
use crate::version::{version_text, Version};

verus! {

use vstd::string::StringExecFns;

/// How the native library is consumed: as a static archive or as a
/// shared (dynamically loaded) artifact.
#[derive(Clone, Copy, Debug, PartialEq, Eq, Structural)]
pub enum LibraryType {
    Static,
    Shared,
}

/// One piece of a path template: literal text, or a placeholder to be
/// filled with the value of a named installation-path binding.
#[derive(Debug)]
pub enum TemplateSegment {
    /// Text copied into the path as it stands.
    Literal(String),
    /// The value of the named binding of the installation data.
    Binding(String),
}

/// A directory-path template: segments concatenated in order once
/// every placeholder is substituted.
#[derive(Debug)]
pub struct PathTemplate {
    pub segments: Vec<TemplateSegment>,
}

/// The build parameters recorded for one known target.
#[derive(Debug)]
pub struct BuildParameters {
    /// The linkage mode the target was generated for.
    pub library_type: LibraryType,
    /// Templates of the include directories handed to the compiler.
    pub include_templates: Vec<PathTemplate>,
    /// Templates of the library directories handed to the linker.
    pub library_templates: Vec<PathTemplate>,
    /// The names of the libraries to link.
    pub linked_libraries: Vec<String>,
}

/// One registry entry: a version the crate was generated against, the
/// platform condition under which the entry applies, and its build
/// parameters.
#[derive(Debug)]
pub struct KnownTarget {
    pub version: Version,
    pub condition: Condition,
    pub parameters: BuildParameters,
}

/// The short description of a known target, for the diagnostic
/// listing: its version, then its platform condition.
pub open spec fn spec_short_text(t: KnownTarget) -> Seq<char> {
    version_text(t.version) + ", "@ + spec_summary(t.condition)
}

impl KnownTarget {
    /// Renders the target's short description.
    pub fn short_text(&self) -> (r: String)
        ensures
            r@ == spec_short_text(*self),
    {
        let mut r = self.version.text();
        r.append(", ");
        r.append(self.condition.summary().as_str());
        proof {
            reveal_strlit(", ");
            assert(r@ =~= spec_short_text(*self));
        }
        r
    }
}

/// The registry of known targets. Built once, at process start, from
/// the data embedded in the generated crate; never mutated.
#[derive(Debug)]
pub struct Registry {
    targets: Vec<KnownTarget>,
}

impl View for Registry {
    type V = Seq<KnownTarget>;

    closed spec fn view(&self) -> Seq<KnownTarget> {
        self.targets@
    }
}

/// The versions of a sequence of known targets, in order.
pub open spec fn spec_versions(targets: Seq<KnownTarget>) -> Seq<Version> {
    targets.map_values(|t: KnownTarget| t.version)
}

impl Registry {
    /// Wraps the embedded target list as a registry.
    pub fn new(targets: Vec<KnownTarget>) -> (r: Registry)
        ensures
            r@ == targets@,
    {
        Registry { targets }
    }

    /// The entries, in their embedded order.
    pub fn known_targets(&self) -> (r: &Vec<KnownTarget>)
        ensures
            r@ == self@,
    {
        &self.targets
    }

    /// The number of entries.
    pub fn len(&self) -> (r: usize)
        ensures
            r == self@.len(),
    {
        self.targets.len()
    }

    /// The version of every entry, in the registry's order.
    pub fn versions(&self) -> (r: Vec<Version>)
        ensures
            r@ == spec_versions(self@),
    {
        let mut r: Vec<Version> = Vec::new();
        let mut i: usize = 0;
        while i < self.targets.len()
            invariant
                i <= self.targets.len(),
                r@.len() == i,
                forall|j: int| 0 <= j < i ==> r@[j] == self@[j].version,
            decreases self.targets.len() - i,
        {
            r.push(self.targets[i].version);
            i += 1;
        }
        proof {
            assert(r@ =~= spec_versions(self@));
        }
        r
    }

    /// The diagnostic listing: one line per known target, each the
    /// target's short description behind a `"* "` prefix. Emitted when
    /// the installed version is unsupported, so a user can pick a
    /// fallback; the format is stable.
    pub fn listing(&self) -> (r: Vec<String>)
        ensures
            r@.len() == self@.len(),
            forall|j: int|
                0 <= j < self@.len() ==> (#[trigger] r@[j])@ == "* "@ + spec_short_text(self@[j]),
    {
        let mut r: Vec<String> = Vec::new();
        let mut i: usize = 0;
        while i < self.targets.len()
            invariant
                i <= self.targets.len(),
                r@.len() == i,
                forall|j: int|
                    0 <= j < i ==> (#[trigger] r@[j])@ == "* "@ + spec_short_text(self@[j]),
            decreases self.targets.len() - i,
        {
            let mut line = String::new().concat("* ");
            line.append(self.targets[i].short_text().as_str());
            r.push(line);
            i += 1;
        }
        r
    }
}

} // verus!
