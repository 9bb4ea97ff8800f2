use gnrt::epoch::Epoch;
use gnrt::orchestrate::{
    collect_crate_metadata, collect_std_vendored_crates, prepare_std_dependencies, DeclaredDependency,
    StdDepsError, StdVendorError, StdVendoredDir, Visibility,
};
use gnrt::reconcile::{DependencyKind, ResolvedDependency};
use gnrt::registry::{ScannedDir, ThirdPartySource, VendoredCrate};
use gnrt::version::Version;

fn id(name: &str, major: u64, minor: u64, patch: u64) -> VendoredCrate {
    VendoredCrate { name: name.to_string(), version: Version::new(major, minor, patch) }
}

fn declared(name: &str, version: Epoch, testonly: bool, allow: bool) -> DeclaredDependency {
    DeclaredDependency {
        name: name.to_string(),
        version,
        testonly,
        allow_first_party_usage: allow,
        build_script_outputs: vec!["out.rs".to_string()],
        gn_variables_lib: None,
    }
}

fn source() -> ThirdPartySource {
    ThirdPartySource::new(&vec![
        ScannedDir { crate_dir: "foo".to_string(), epoch_dir: "v1".to_string(), package: Some(id("foo", 1, 4, 0)) },
        ScannedDir { crate_dir: "bar".to_string(), epoch_dir: "v0_2".to_string(), package: Some(id("bar", 0, 2, 9)) },
    ])
}

#[test]
fn visibility_defaults_to_third_party() {
    assert_eq!(Visibility::default(), Visibility::ThirdParty);
}

#[test]
fn metadata_for_declared_dependencies() {
    let deps = vec![
        declared("foo", Epoch::Major(1), false, true),
        declared("bar", Epoch::Minor(2), true, true),
        declared("foo", Epoch::Major(1), false, false),
    ];
    let meta = collect_crate_metadata(&source(), &deps).ok().unwrap();
    assert_eq!(meta.len(), 3);
    assert_eq!(meta[0].0, id("foo", 1, 4, 0));
    assert_eq!(meta[0].1.visibility, Visibility::Public);
    assert_eq!(meta[1].0, id("bar", 0, 2, 9));
    assert_eq!(meta[1].1.visibility, Visibility::TestOnlyAndThirdParty);
    assert_eq!(meta[2].1.visibility, Visibility::ThirdParty);
    assert_eq!(meta[0].1.build_script_outputs, vec!["out.rs".to_string()]);
}

#[test]
fn metadata_names_unvendored_request() {
    let deps = vec![declared("foo", Epoch::Major(2), false, true)];
    match collect_crate_metadata(&source(), &deps) {
        Err(e) => {
            assert_eq!(e.name, "foo");
            assert_eq!(e.version, Epoch::Major(2));
        }
        Ok(_) => panic!("expected an error"),
    }
}

#[test]
fn std_vendored_directories() {
    let good = vec![StdVendoredDir { dir_name: "libc-0.2.155".to_string(), package: Some(id("libc", 0, 2, 155)) }];
    assert_eq!(collect_std_vendored_crates(&good).ok().unwrap(), vec![id("libc", 0, 2, 155)]);
    let renamed = vec![StdVendoredDir { dir_name: "libc".to_string(), package: Some(id("libc", 0, 2, 155)) }];
    assert!(matches!(collect_std_vendored_crates(&renamed), Err(StdVendorError::DirectoryMismatch { .. })));
    let empty = vec![StdVendoredDir { dir_name: "odd".to_string(), package: None }];
    assert!(matches!(collect_std_vendored_crates(&empty), Err(StdVendorError::MissingManifest(n)) if n == "odd"));
}

fn std_dep(name: &str, kinds: Vec<DependencyKind>, is_local: bool, lib: Option<&str>, build: Option<&str>) -> ResolvedDependency {
    ResolvedDependency {
        package_name: name.to_string(),
        version: Version::new(0, 2, 155),
        is_local,
        dependency_path: vec![],
        dependency_kinds: kinds,
        lib_target: lib.map(|s| s.to_string()),
        build_script: build.map(|s| s.to_string()),
    }
}

#[test]
fn std_dependencies_rehomed_filtered_and_sorted() {
    let deps = vec![
        std_dep("std", vec![DependencyKind::Normal], true, Some("/src/rust/library/std/src/lib.rs"), Some("/src/rust/library/std/build.rs")),
        std_dep("cc", vec![DependencyKind::Build], false, Some("/elsewhere/cc/lib.rs"), None),
        std_dep("libc", vec![DependencyKind::Normal, DependencyKind::Build], false, Some("/src/rust/vendor/libc-0.2.155/src/lib.rs"), None),
    ];
    let vendored = vec![id("libc", 0, 2, 155)];
    let out = prepare_std_dependencies(deps, "/src/rust", "/chromium/toolchain", &vendored).ok().unwrap();
    assert_eq!(out.len(), 2);
    assert_eq!(out[0].package_name, "libc");
    assert_eq!(out[0].lib_target.as_deref(), Some("/chromium/toolchain/vendor/libc-0.2.155/src/lib.rs"));
    assert_eq!(out[0].build_script, None);
    assert_eq!(out[1].package_name, "std");
    assert_eq!(out[1].lib_target.as_deref(), Some("/chromium/toolchain/library/std/src/lib.rs"));
    assert_eq!(out[1].build_script.as_deref(), Some("/chromium/toolchain/library/std/build.rs"));
}

#[test]
fn std_dependencies_sorted_by_version_within_name() {
    let mut newer = std_dep("dup", vec![DependencyKind::Normal], true, None, None);
    newer.version = Version::new(1, 0, 0);
    let older = std_dep("dup", vec![DependencyKind::Normal], true, None, None);
    let out = prepare_std_dependencies(vec![newer, older], "/r", "/i", &vec![]).ok().unwrap();
    assert_eq!(out[0].version, Version::new(0, 2, 155));
    assert_eq!(out[1].version, Version::new(1, 0, 0));
}

#[test]
fn std_build_script_outside_tree_fails() {
    let deps = vec![std_dep("libc", vec![DependencyKind::Normal], true, Some("/src/rust/lib.rs"), Some("/tmp/build.rs"))];
    match prepare_std_dependencies(deps, "/src/rust", "/i", &vec![]) {
        Err(StdDepsError::NotLocallyAvailable { name, .. }) => assert_eq!(name, "libc"),
        _ => panic!("expected a dependency outside the tree"),
    }
}

#[test]
fn std_dependency_outside_tree_fails() {
    let deps = vec![std_dep("odd", vec![DependencyKind::Normal], true, Some("/src/rusty/lib.rs"), None)];
    assert!(matches!(
        prepare_std_dependencies(deps, "/src/rust", "/i", &vec![]),
        Err(StdDepsError::NotLocallyAvailable { .. })
    ));
}

#[test]
fn std_third_party_must_be_vendored() {
    let deps = vec![std_dep("libc", vec![DependencyKind::Normal], false, Some("/src/rust/vendor/libc/lib.rs"), None)];
    match prepare_std_dependencies(deps, "/src/rust", "/i", &vec![]) {
        Err(StdDepsError::NotVendored { name, version }) => {
            assert_eq!(name, "libc");
            assert_eq!(version, Version::new(0, 2, 155));
        }
        _ => panic!("expected an unvendored dependency"),
    }
}
