//! The build configuration merger.
//!
//! It combines the resolved known target with the concrete paths the
//! installation probe reported, substituting every placeholder of the
//! target's path templates with the value of the named binding, and
//! decides the linkage mode: the invoking crate's override where one
//! is given, else the mode the target was generated for. Pure data
//! transformation: the one failure is a template naming a binding the
//! installation data lacks.

use vstd::prelude::*;
use crate::errors::BuildError;
use crate::registry::{KnownTarget, LibraryType, PathTemplate, TemplateSegment};
use crate::version::Version;

verus! {

use vstd::string::StringExecFns;

/// One named path slot reported by the installation probe, such as
/// the include root or the library root.
#[derive(Debug)]
pub struct PathBinding {
    pub key: String,
    pub value: String,
}

/// What the installation probe reported: the installed version as a
/// free-form string, and the named filesystem paths of the
/// installation.
#[derive(Debug)]
pub struct InstallationData {
    pub version: String,
    pub bindings: Vec<PathBinding>,
}

/// The merged output handed to the native build step: the chosen
/// version, the decided linkage mode, and the concrete paths.
#[derive(Debug)]
pub struct ResolvedConfig {
    pub version: Version,
    pub library_type: LibraryType,
    pub include_paths: Vec<String>,
    pub library_paths: Vec<String>,
    pub linked_libraries: Vec<String>,
}

/// The value of the first binding with the given key, if any.
pub open spec fn spec_binding(bs: Seq<PathBinding>, key: Seq<char>) -> Option<Seq<char>>
    decreases bs.len(),
{
    if bs.len() == 0 {
        None
    } else if bs[0].key@ == key {
        Some(bs[0].value@)
    } else {
        spec_binding(bs.drop_first(), key)
    }
}

/// The text a segment contributes: literal text as it stands, a
/// placeholder the value of its binding; `None` where the binding is
/// absent.
pub open spec fn spec_subst_segment(seg: TemplateSegment, bs: Seq<PathBinding>) -> Option<
    Seq<char>,
> {
    match seg {
        TemplateSegment::Literal(s) => Some(s@),
        TemplateSegment::Binding(k) => spec_binding(bs, k@),
    }
}

/// A segment references only bindings that are present.
pub open spec fn spec_segment_bound(seg: TemplateSegment, bs: Seq<PathBinding>) -> bool {
    match seg {
        TemplateSegment::Literal(_) => true,
        TemplateSegment::Binding(k) => spec_binding(bs, k@) is Some,
    }
}

/// The substituted text of a template: its segments' contributions
/// concatenated in order, or `None` where any segment's binding is
/// absent. The result holds no placeholder: it is literal text and
/// binding values alone.
pub open spec fn spec_subst(segs: Seq<TemplateSegment>, bs: Seq<PathBinding>) -> Option<Seq<char>>
    decreases segs.len(),
{
    if segs.len() == 0 {
        Some(Seq::<char>::empty())
    } else {
        let init = spec_subst(segs.drop_last(), bs);
        let last = spec_subst_segment(segs.last(), bs);
        if init is Some && last is Some {
            Some(init->Some_0 + last->Some_0)
        } else {
            None
        }
    }
}

/// A template substitutes in full exactly when each of its segments
/// references only bindings that are present.
pub proof fn lemma_subst_defined(segs: Seq<TemplateSegment>, bs: Seq<PathBinding>)
    ensures
        spec_subst(segs, bs) is Some <==> (forall|i: int|
            0 <= i < segs.len() ==> spec_segment_bound(#[trigger] segs[i], bs)),
    decreases segs.len(),
{
    if segs.len() > 0 {
        let init = segs.drop_last();
        lemma_subst_defined(init, bs);
        if spec_subst(segs, bs) is Some {
            assert forall|i: int| 0 <= i < segs.len() implies spec_segment_bound(
                #[trigger] segs[i],
                bs,
            ) by {
                if i < segs.len() - 1 {
                    assert(init[i] == segs[i]);
                    assert(spec_segment_bound(init[i], bs));
                } else {
                    assert(segs.last() == segs[i]);
                    assert(spec_subst_segment(segs.last(), bs) is Some);
                }
            }
        }
        if forall|i: int| 0 <= i < segs.len() ==> spec_segment_bound(#[trigger] segs[i], bs) {
            assert forall|i: int| 0 <= i < init.len() implies spec_segment_bound(
                #[trigger] init[i],
                bs,
            ) by {
                assert(init[i] == segs[i]);
            }
            assert(spec_subst(init, bs) is Some);
            assert(spec_segment_bound(segs[segs.len() - 1], bs));
            assert(segs.last() == segs[segs.len() - 1]);
            assert(spec_subst_segment(segs.last(), bs) is Some);
        }
    }
}

/// Skipping bindings whose key does not match leaves the lookup
/// unchanged.
proof fn lemma_binding_skip(bs: Seq<PathBinding>, key: Seq<char>, i: int)
    requires
        0 <= i <= bs.len(),
        forall|j: int| 0 <= j < i ==> (#[trigger] bs[j]).key@ != key,
    ensures
        spec_binding(bs, key) == spec_binding(bs.skip(i), key),
    decreases i,
{
    if i > 0 {
        assert(bs[0].key@ != key);
        lemma_binding_skip(bs.drop_first(), key, i - 1);
        assert(bs.drop_first().skip(i - 1) =~= bs.skip(i));
    } else {
        assert(bs.skip(0) =~= bs);
    }
}

/// The value of the first binding named `key`, if any.
fn lookup_binding<'a>(data: &'a InstallationData, key: &String) -> (r: Option<&'a String>)
    ensures
        r matches Some(v) ==> spec_binding(data.bindings@, key@) == Some(v@),
        r is None ==> spec_binding(data.bindings@, key@) is None,
{
    let mut i: usize = 0;
    while i < data.bindings.len()
        invariant
            i <= data.bindings.len(),
            forall|j: int| 0 <= j < i ==> (#[trigger] data.bindings@[j]).key@ != key@,
        decreases data.bindings.len() - i,
    {
        if data.bindings[i].key == *key {
            proof {
                lemma_binding_skip(data.bindings@, key@, i as int);
                assert(data.bindings@.skip(i as int)[0] == data.bindings@[i as int]);
            }
            return Some(&data.bindings[i].value);
        }
        i += 1;
    }
    proof {
        lemma_binding_skip(data.bindings@, key@, data.bindings@.len() as int);
        assert(data.bindings@.skip(data.bindings@.len() as int) =~= Seq::<PathBinding>::empty());
    }
    None
}

/// Substitutes every placeholder of a template with the value of its
/// binding, or fails with `MissingPathBinding` where a referenced
/// binding is absent.
pub fn substitute(template: &PathTemplate, data: &InstallationData) -> (r: Result<
    String,
    BuildError,
>)
    ensures
        r is Ok <==> spec_subst(template.segments@, data.bindings@) is Some,
        r matches Ok(s) ==> Some(s@) == spec_subst(template.segments@, data.bindings@),
        r matches Err(e) ==> e == BuildError::MissingPathBinding,
{
    let mut out = String::new();
    let mut i: usize = 0;
    while i < template.segments.len()
        invariant
            i <= template.segments.len(),
            spec_subst(template.segments@.subrange(0, i as int), data.bindings@) is Some,
            Some(out@) == spec_subst(template.segments@.subrange(0, i as int), data.bindings@),
        decreases template.segments.len() - i,
    {
        let piece: &String = match &template.segments[i] {
            TemplateSegment::Literal(s) => s,
            TemplateSegment::Binding(k) => match lookup_binding(data, k) {
                Some(v) => v,
                None => {
                    proof {
                        lemma_subst_defined(template.segments@, data.bindings@);
                        assert(!spec_segment_bound(template.segments@[i as int], data.bindings@));
                    }
                    return Err(BuildError::MissingPathBinding);
                },
            },
        };
        out.append(piece.as_str());
        proof {
            let pre = template.segments@.subrange(0, (i + 1) as int);
            assert(pre.drop_last() =~= template.segments@.subrange(0, i as int));
            assert(pre.last() == template.segments@[i as int]);
        }
        i += 1;
    }
    proof {
        assert(template.segments@.subrange(0, template.segments@.len() as int)
            =~= template.segments@);
    }
    Ok(out)
}

/// Every template of the sequence substitutes in full.
pub open spec fn spec_templates_ok(ts: Seq<PathTemplate>, bs: Seq<PathBinding>) -> bool {
    forall|i: int| 0 <= i < ts.len() ==> spec_subst((#[trigger] ts[i]).segments@, bs) is Some
}

/// The substituted text of each template, in order; meaningful only
/// where `spec_templates_ok` holds.
pub open spec fn spec_paths(ts: Seq<PathTemplate>, bs: Seq<PathBinding>) -> Seq<Seq<char>> {
    ts.map_values(|t: PathTemplate| spec_subst(t.segments@, bs)->Some_0)
}

/// Substitutes a whole list of templates, failing on the first whose
/// binding is absent.
fn substitute_all(ts: &Vec<PathTemplate>, data: &InstallationData) -> (r: Result<
    Vec<String>,
    BuildError,
>)
    ensures
        r is Ok <==> spec_templates_ok(ts@, data.bindings@),
        r matches Ok(ps) ==> ps@.map_values(|s: String| s@) == spec_paths(ts@, data.bindings@),
        r matches Err(e) ==> e == BuildError::MissingPathBinding,
{
    let mut ps: Vec<String> = Vec::new();
    let mut i: usize = 0;
    while i < ts.len()
        invariant
            i <= ts.len(),
            ps@.len() == i,
            forall|j: int|
                0 <= j < i ==> spec_subst((#[trigger] ts@[j]).segments@, data.bindings@) is Some,
            forall|j: int|
                0 <= j < i ==> Some((#[trigger] ps@[j])@) == spec_subst(
                    ts@[j].segments@,
                    data.bindings@,
                ),
        decreases ts.len() - i,
    {
        match substitute(&ts[i], data) {
            Ok(s) => ps.push(s),
            Err(e) => {
                return Err(e);
            },
        }
        i += 1;
    }
    proof {
        assert(ps@.map_values(|s: String| s@) =~= spec_paths(ts@, data.bindings@));
    }
    Ok(ps)
}

/// The merger succeeds exactly when every path template of the target
/// references only bindings the installation data holds.
pub open spec fn spec_merge_ok(t: KnownTarget, bs: Seq<PathBinding>) -> bool {
    spec_templates_ok(t.parameters.include_templates@, bs) && spec_templates_ok(
        t.parameters.library_templates@,
        bs,
    )
}

/// What a successful merge produces: the target's version, the
/// overridden or declared linkage mode, every path template
/// substituted in full, and the linked libraries as declared.
pub open spec fn spec_merged(
    c: ResolvedConfig,
    t: KnownTarget,
    bs: Seq<PathBinding>,
    linkage_override: Option<LibraryType>,
) -> bool {
    &&& c.version == t.version
    &&& c.library_type == (match linkage_override {
        Some(l) => l,
        None => t.parameters.library_type,
    })
    &&& c.include_paths@.map_values(|s: String| s@) == spec_paths(
        t.parameters.include_templates@,
        bs,
    )
    &&& c.library_paths@.map_values(|s: String| s@) == spec_paths(
        t.parameters.library_templates@,
        bs,
    )
    &&& c.linked_libraries@ == t.parameters.linked_libraries@
}

/// Merges the resolved known target with the installation data and
/// the invoking crate's linkage override into the configuration the
/// native build step consumes.
pub fn merge(
    target: &KnownTarget,
    data: &InstallationData,
    linkage_override: Option<LibraryType>,
) -> (r: Result<ResolvedConfig, BuildError>)
    ensures
        r is Ok <==> spec_merge_ok(*target, data.bindings@),
        r matches Ok(c) ==> spec_merged(c, *target, data.bindings@, linkage_override),
        r matches Err(e) ==> e == BuildError::MissingPathBinding,
{
    let include_paths = match substitute_all(&target.parameters.include_templates, data) {
        Ok(p) => p,
        Err(e) => {
            return Err(e);
        },
    };
    let library_paths = match substitute_all(&target.parameters.library_templates, data) {
        Ok(p) => p,
        Err(e) => {
            return Err(e);
        },
    };
    let libs = &target.parameters.linked_libraries;
    let mut linked_libraries: Vec<String> = Vec::new();
    let mut i: usize = 0;
    while i < libs.len()
        invariant
            i <= libs.len(),
            linked_libraries@.len() == i,
            forall|j: int| 0 <= j < i ==> #[trigger] linked_libraries@[j] == libs@[j],
        decreases libs.len() - i,
    {
        linked_libraries.push(libs[i].clone());
        i += 1;
    }
    proof {
        assert(linked_libraries@ =~= target.parameters.linked_libraries@);
    }
    let library_type = match linkage_override {
        Some(l) => l,
        None => target.parameters.library_type,
    };
    Ok(ResolvedConfig {
        version: target.version,
        library_type,
        include_paths,
        library_paths,
        linked_libraries,
    })
}

} // verus!
