use gnrt::reconcile::{
    check_build_files, reconcile, BuildFileError, DependencyKind, DiagnosticKind, ReconcileError,
    ResolvedDependency,
};
use gnrt::registry::{ScannedDir, ThirdPartySource, VendoredCrate};
use gnrt::version::Version;

fn id(name: &str, major: u64, minor: u64, patch: u64) -> VendoredCrate {
    VendoredCrate { name: name.to_string(), version: Version::new(major, minor, patch) }
}

fn registry(ids: &[VendoredCrate]) -> ThirdPartySource {
    let dirs = ids
        .iter()
        .map(|c| ScannedDir {
            crate_dir: c.normalized_name().as_str().to_string(),
            epoch_dir: gnrt::epoch::Epoch::from_version(&c.version).to_string(),
            package: Some(c.clone()),
        })
        .collect();
    ThirdPartySource::new(&dirs)
}

fn dep(name: &str, major: u64, minor: u64, patch: u64, is_local: bool, path: &[&str]) -> ResolvedDependency {
    ResolvedDependency {
        package_name: name.to_string(),
        version: Version::new(major, minor, patch),
        is_local,
        dependency_path: path.iter().map(|s| s.to_string()).collect(),
        dependency_kinds: vec![DependencyKind::Normal],
        lib_target: None,
        build_script: None,
    }
}

#[test]
fn consistent_inputs_succeed() {
    let source = registry(&[id("foo", 1, 2, 0), id("bar", 0, 3, 0)]);
    let deps = vec![dep("foo", 1, 2, 0, true, &[]), dep("bar", 0, 3, 0, true, &[])];
    assert!(reconcile(&deps, &source).is_ok());
}

#[test]
fn epoch_collision_fails_at_once() {
    let source = registry(&[id("foo", 1, 2, 0), id("unused", 1, 0, 0)]);
    let deps = vec![
        dep("foo", 1, 2, 0, true, &[]),
        dep("missing", 3, 0, 0, true, &[]),
        dep("foo", 1, 3, 0, true, &[]),
    ];
    match reconcile(&deps, &source) {
        Err(ReconcileError::EpochCollision { name, version, conflict }) => {
            assert_eq!(name, "foo");
            assert_eq!(version, Version::new(1, 3, 0));
            assert_eq!(conflict, Version::new(1, 2, 0));
        }
        _ => panic!("expected an epoch collision"),
    }
}

#[test]
fn same_name_other_epochs_do_not_collide() {
    let source = registry(&[id("foo", 1, 2, 0), id("foo", 2, 0, 0)]);
    let deps = vec![dep("foo", 1, 2, 0, true, &[]), dep("foo", 2, 0, 0, true, &[])];
    assert!(reconcile(&deps, &source).is_ok());
}

#[test]
fn unreferenced_vendored_crate_is_unused() {
    let source = registry(&[id("foo", 1, 2, 0), id("bar", 1, 0, 0)]);
    let deps = vec![dep("bar", 1, 0, 0, true, &[])];
    match reconcile(&deps, &source) {
        Err(ReconcileError::Diagnostics(d)) => {
            assert_eq!(d.len(), 1);
            assert_eq!(d[0].kind, DiagnosticKind::Unused);
            assert_eq!(d[0].name, "foo");
            assert_eq!(d[0].version, Version::new(1, 2, 0));
        }
        _ => panic!("expected diagnostics"),
    }
}

#[test]
fn unvendored_dependency_is_missing_with_chain() {
    let source = registry(&[id("foo", 1, 2, 0)]);
    let deps = vec![dep("foo", 1, 2, 0, true, &[]), dep("bar", 2, 0, 0, true, &["root", "foo 1.2.0"])];
    match reconcile(&deps, &source) {
        Err(ReconcileError::Diagnostics(d)) => {
            assert_eq!(d.len(), 1);
            assert_eq!(d[0].kind, DiagnosticKind::Missing);
            assert_eq!(d[0].name, "bar");
            assert_eq!(d[0].version, Version::new(2, 0, 0));
            assert_eq!(d[0].chain, vec!["root".to_string(), "foo 1.2.0".to_string()]);
        }
        _ => panic!("expected diagnostics"),
    }
}

#[test]
fn non_local_resolution_and_all_diagnostics_batched() {
    let source = registry(&[id("foo", 1, 2, 0), id("old", 0, 1, 0)]);
    let deps = vec![dep("foo", 1, 2, 0, false, &[]), dep("new", 1, 0, 0, true, &["root"])];
    match reconcile(&deps, &source) {
        Err(ReconcileError::Diagnostics(d)) => {
            let kinds: Vec<DiagnosticKind> = d.iter().map(|x| x.kind).collect();
            assert_eq!(kinds, vec![DiagnosticKind::NotLocal, DiagnosticKind::Missing, DiagnosticKind::Unused]);
            assert_eq!(d[2].name, "old");
        }
        _ => panic!("expected diagnostics"),
    }
}

#[test]
fn empty_inputs_reconcile() {
    assert!(reconcile(&vec![], &registry(&[])).is_ok());
}

#[test]
fn build_files_one_short() {
    let source = registry(&[id("a", 1, 0, 0), id("b", 1, 0, 0), id("c", 0, 2, 0)]);
    match check_build_files(&source, &vec![id("a", 1, 0, 0), id("c", 0, 2, 0)]) {
        Err(BuildFileError::MissingBuildFiles(m)) => assert_eq!(m, vec![id("b", 1, 0, 0)]),
        _ => panic!("expected a missing build file"),
    }
}

#[test]
fn build_files_complete_or_unknown() {
    let source = registry(&[id("a", 1, 0, 0), id("b", 1, 0, 0)]);
    assert!(check_build_files(&source, &vec![id("b", 1, 0, 0), id("a", 1, 0, 0)]).is_ok());
    match check_build_files(&source, &vec![id("a", 1, 0, 0), id("z", 1, 0, 0)]) {
        Err(BuildFileError::UnknownCrate(c)) => assert_eq!(c, id("z", 1, 0, 0)),
        _ => panic!("expected an unknown crate"),
    }
}
