use gnrt::epoch::Epoch;
use gnrt::registry::{std_crate_path, ScannedDir, ThirdPartySource, VendoredCrate};
use gnrt::version::Version;

fn id(name: &str, major: u64, minor: u64, patch: u64) -> VendoredCrate {
    VendoredCrate { name: name.to_string(), version: Version::new(major, minor, patch) }
}

fn dir(crate_dir: &str, epoch_dir: &str, package: Option<VendoredCrate>) -> ScannedDir {
    ScannedDir { crate_dir: crate_dir.to_string(), epoch_dir: epoch_dir.to_string(), package }
}

fn sample() -> ThirdPartySource {
    ThirdPartySource::new(&vec![
        dir("foo_bar", "v1", Some(id("foo-bar", 1, 2, 0))),
        dir("baz", "v0_3", Some(id("baz", 0, 3, 1))),
        dir("baz", "v1", Some(id("baz", 1, 0, 0))),
        dir("qux", "v2", None),
        dir("Not-Normal", "v1", Some(id("Not-Normal", 1, 0, 0))),
        dir("zed", "latest", Some(id("zed", 1, 0, 0))),
    ])
}

#[test]
fn scan_keeps_well_formed_directories() {
    let source = sample();
    let present = source.present_crates();
    assert_eq!(present, &vec![id("foo-bar", 1, 2, 0), id("baz", 0, 3, 1), id("baz", 1, 0, 0)]);
    assert_eq!(source.without_manifest(), &vec!["qux/v2".to_string()]);
}

#[test]
fn scan_records_each_identity_once() {
    let source = ThirdPartySource::new(&vec![
        dir("foo", "v1", Some(id("foo", 1, 0, 0))),
        dir("foo", "v1", Some(id("foo", 1, 0, 0))),
    ]);
    assert_eq!(source.present_crates().len(), 1);
}

#[test]
fn find_match_by_epoch() {
    let source = sample();
    assert_eq!(source.find_match("baz", &Epoch::Major(1).to_version_req()), Some(id("baz", 1, 0, 0)));
    assert_eq!(source.find_match("baz", &Epoch::Minor(3).to_version_req()), Some(id("baz", 0, 3, 1)));
    assert_eq!(source.find_match("baz", &Epoch::Major(2).to_version_req()), None);
    assert_eq!(source.find_match("missing", &Epoch::Major(1).to_version_req()), None);
    assert_eq!(source.find_match("foo-bar", &Epoch::Major(1).to_version_req()), Some(id("foo-bar", 1, 2, 0)));
}

#[test]
fn paths_of_vendored_crates() {
    assert_eq!(ThirdPartySource::build_path(&id("foo-bar", 1, 2, 0)), "foo_bar/v1");
    assert_eq!(ThirdPartySource::crate_path(&id("baz", 0, 3, 1)), "baz/v0_3/crate");
    assert_eq!(std_crate_path(&id("libc", 0, 2, 155)), "libc-0.2.155");
    assert_eq!(id("a.b-c", 1, 0, 0).normalized_name().as_str(), "a_b_c");
}

#[test]
fn cargo_patches_sorted_by_patch_name() {
    let patches = sample().cargo_patches();
    let names: Vec<&str> = patches.iter().map(|p| p.patch_name.as_str()).collect();
    assert_eq!(names, vec!["baz_v0_3", "baz_v1", "foo-bar_v1"]);
    assert_eq!(patches[2].package_name, "foo-bar");
    assert_eq!(patches[2].path, "foo_bar/v1/crate");
    assert_eq!(patches[0].path, "baz/v0_3/crate");
}

#[test]
fn contains_is_exact_identity() {
    let source = sample();
    assert!(source.contains(&id("baz", 1, 0, 0)));
    assert!(!source.contains(&id("baz", 1, 0, 1)));
}
