use qt_ritual_build::condition::{Condition, HostFact, HostFacts};
use qt_ritual_build::errors::BuildError;
use qt_ritual_build::merge::{merge, substitute, InstallationData, PathBinding};
use qt_ritual_build::orchestrate::orchestrate;
use qt_ritual_build::registry::{
    BuildParameters, KnownTarget, LibraryType, PathTemplate, Registry, TemplateSegment,
};
use qt_ritual_build::resolver::ResolutionReason;
use qt_ritual_build::version::Version;

fn v(major: u64, minor: u64, patch: u64) -> Version {
    Version { major, minor, patch }
}

fn template(segments: Vec<TemplateSegment>) -> PathTemplate {
    PathTemplate { segments }
}

fn lit(s: &str) -> TemplateSegment {
    TemplateSegment::Literal(s.to_string())
}

fn bind(s: &str) -> TemplateSegment {
    TemplateSegment::Binding(s.to_string())
}

fn params(library_type: LibraryType) -> BuildParameters {
    BuildParameters {
        library_type,
        include_templates: vec![template(vec![bind("include_root"), lit("/QtGui")])],
        library_templates: vec![template(vec![bind("lib_root")])],
        linked_libraries: vec!["Qt5Gui".to_string()],
    }
}

fn target(version: Version, condition: Condition, library_type: LibraryType) -> KnownTarget {
    KnownTarget { version, condition, parameters: params(library_type) }
}

fn installation(version: &str) -> InstallationData {
    InstallationData {
        version: version.to_string(),
        bindings: vec![
            PathBinding { key: "include_root".to_string(), value: "/usr/include/qt5".to_string() },
            PathBinding { key: "lib_root".to_string(), value: "/usr/lib/qt5".to_string() },
        ],
    }
}

fn any_host() -> HostFacts {
    HostFacts {
        os_family: Some("linux".to_string()),
        pointer_width: Some("64".to_string()),
        compiler: Some("gcc".to_string()),
        endianness: Some("little".to_string()),
    }
}

#[test]
fn substitute_fills_every_placeholder() {
    let data = installation("5.11.0");
    let t = template(vec![bind("include_root"), lit("/QtCore"), bind("lib_root")]);
    assert_eq!(
        substitute(&t, &data).unwrap(),
        "/usr/include/qt5/QtCore/usr/lib/qt5"
    );
}

#[test]
fn substitute_reports_missing_binding() {
    let data = installation("5.11.0");
    let t = template(vec![lit("/opt"), bind("plugin_root")]);
    assert_eq!(substitute(&t, &data), Err(BuildError::MissingPathBinding));
}

#[test]
fn merge_produces_concrete_paths() {
    let t = target(v(5, 11, 0), Condition::AlwaysTrue, LibraryType::Shared);
    let config = merge(&t, &installation("5.11.0"), None).unwrap();
    assert_eq!(config.version, v(5, 11, 0));
    assert_eq!(config.library_type, LibraryType::Shared);
    assert_eq!(config.include_paths, vec!["/usr/include/qt5/QtGui".to_string()]);
    assert_eq!(config.library_paths, vec!["/usr/lib/qt5".to_string()]);
    assert_eq!(config.linked_libraries, vec!["Qt5Gui".to_string()]);
}

#[test]
fn merge_honours_linkage_override() {
    let t = target(v(5, 11, 0), Condition::AlwaysTrue, LibraryType::Shared);
    let config = merge(&t, &installation("5.11.0"), Some(LibraryType::Static)).unwrap();
    assert_eq!(config.library_type, LibraryType::Static);
}

#[test]
fn merge_fails_on_unbound_template() {
    let mut t = target(v(5, 11, 0), Condition::AlwaysTrue, LibraryType::Shared);
    t.parameters.include_templates.push(template(vec![bind("missing_slot")]));
    assert_eq!(
        merge(&t, &installation("5.11.0"), None).unwrap_err(),
        BuildError::MissingPathBinding
    );
}

#[test]
fn listing_is_one_prefixed_line_per_target() {
    let registry = Registry::new(vec![
        target(v(5, 9, 7), Condition::AlwaysTrue, LibraryType::Shared),
        target(
            v(5, 11, 0),
            Condition::FactEquals(HostFact::OsFamily, "linux".to_string()),
            LibraryType::Static,
        ),
    ]);
    assert_eq!(
        registry.listing(),
        vec![
            "* 5.9.7, always".to_string(),
            "* 5.11.0, os_family = linux".to_string(),
        ]
    );
}

#[test]
fn short_text_shows_version_and_condition() {
    let t = target(
        v(5, 12, 2),
        Condition::FactEquals(HostFact::Compiler, "msvc".to_string()),
        LibraryType::Shared,
    );
    assert_eq!(t.short_text(), "5.12.2, compiler = msvc");
}

#[test]
fn orchestrate_rejects_empty_registry() {
    let registry = Registry::new(Vec::new());
    let r = orchestrate(&registry, &any_host(), &installation("5.11.0"), None, None);
    assert_eq!(r.unwrap_err(), BuildError::EmptyRegistry);
}

#[test]
fn orchestrate_rejects_bad_version_string() {
    let registry = Registry::new(vec![target(v(5, 11, 0), Condition::AlwaysTrue, LibraryType::Shared)]);
    let r = orchestrate(&registry, &any_host(), &installation("qt-five"), None, None);
    assert_eq!(r.unwrap_err(), BuildError::InvalidVersion);
}

#[test]
fn orchestrate_reports_unsupported_version() {
    let registry = Registry::new(vec![
        target(v(5, 11, 0), Condition::AlwaysTrue, LibraryType::Shared),
        target(v(5, 12, 2), Condition::AlwaysTrue, LibraryType::Shared),
    ]);
    let r = orchestrate(&registry, &any_host(), &installation("5.9.1"), None, None);
    assert_eq!(r.unwrap_err(), BuildError::UnsupportedVersion);
}

#[test]
fn orchestrate_picks_closest_known_version() {
    let registry = Registry::new(vec![
        target(v(5, 11, 0), Condition::AlwaysTrue, LibraryType::Shared),
        target(v(5, 12, 2), Condition::AlwaysTrue, LibraryType::Shared),
    ]);
    let plan = orchestrate(&registry, &any_host(), &installation("5.13.1"), None, None).unwrap();
    assert_eq!(plan.config.version, v(5, 12, 2));
    assert_eq!(plan.reason, ResolutionReason::CrossLineOlder);
    assert_eq!(plan.config.include_paths, vec!["/usr/include/qt5/QtGui".to_string()]);
}

#[test]
fn orchestrate_reports_exact_match() {
    let registry = Registry::new(vec![target(v(5, 11, 0), Condition::AlwaysTrue, LibraryType::Shared)]);
    let plan = orchestrate(&registry, &any_host(), &installation("5.11.0"), None, None).unwrap();
    assert_eq!(plan.config.version, v(5, 11, 0));
    assert_eq!(plan.reason, ResolutionReason::Exact);
}

#[test]
fn orchestrate_filters_by_platform_condition() {
    let registry = Registry::new(vec![
        target(
            v(5, 12, 2),
            Condition::FactEquals(HostFact::OsFamily, "windows".to_string()),
            LibraryType::Shared,
        ),
        target(v(5, 11, 0), Condition::AlwaysTrue, LibraryType::Shared),
    ]);
    let plan = orchestrate(&registry, &any_host(), &installation("5.13.1"), None, None).unwrap();
    assert_eq!(plan.config.version, v(5, 11, 0));
}

#[test]
fn orchestrate_rejects_unknown_override() {
    let registry = Registry::new(vec![target(v(5, 11, 0), Condition::AlwaysTrue, LibraryType::Shared)]);
    let r = orchestrate(
        &registry,
        &any_host(),
        &installation("5.11.0"),
        Some(v(5, 6, 3)),
        None,
    );
    assert_eq!(r.unwrap_err(), BuildError::UnknownOverrideVersion);
}

#[test]
fn orchestrate_honours_override_version() {
    let registry = Registry::new(vec![
        target(v(5, 11, 0), Condition::AlwaysTrue, LibraryType::Shared),
        target(v(5, 9, 7), Condition::AlwaysTrue, LibraryType::Shared),
    ]);
    let plan = orchestrate(
        &registry,
        &any_host(),
        &installation("5.11.0"),
        Some(v(5, 9, 7)),
        Some(LibraryType::Static),
    )
    .unwrap();
    assert_eq!(plan.config.version, v(5, 9, 7));
    assert_eq!(plan.config.library_type, LibraryType::Static);
}

#[test]
fn orchestrate_reports_missing_path_binding() {
    let registry = Registry::new(vec![target(v(5, 11, 0), Condition::AlwaysTrue, LibraryType::Shared)]);
    let mut data = installation("5.11.0");
    data.bindings.clear();
    let r = orchestrate(&registry, &any_host(), &data, None, None);
    assert_eq!(r.unwrap_err(), BuildError::MissingPathBinding);
}

#[test]
fn reason_names_are_stable() {
    assert_eq!(ResolutionReason::Exact.describe(), "exact");
    assert_eq!(ResolutionReason::SameMinorOlder.describe(), "same-minor-older");
    assert_eq!(
        ResolutionReason::SameMinorFallbackNewer.describe(),
        "same-minor-fallback-newer"
    );
    assert_eq!(ResolutionReason::CrossLineOlder.describe(), "cross-line-older");
    assert_eq!(ResolutionReason::Unsupported.describe(), "unsupported");
}

#[test]
fn error_descriptions_name_the_condition() {
    assert_eq!(
        BuildError::UnsupportedVersion.describe(),
        "the installed version predates every known version"
    );
    assert_eq!(
        BuildError::EmptyRegistry.describe(),
        "the crate embeds no known target"
    );
}
