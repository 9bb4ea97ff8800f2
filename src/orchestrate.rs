//! The decisions of the two generation modes: per-package metadata from the
//! override manifest, and the standard library's dependency set.
use vstd::prelude::*;
use vstd::string::*;

use crate::epoch::Epoch;
use crate::reconcile::{DependencyKind, ResolvedDependency};
use crate::registry::{std_crate_path, std_path_text, text_le, ThirdPartySource, VendoredCrate};
use crate::version::Version;

verus! {

/// Which build targets may use a vendored package.
#[derive(Clone, Copy, Debug, PartialEq, Eq, Structural)]
pub enum Visibility {
    /// Any build target.
    Public,
    /// Only third-party packages.
    ThirdParty,
    /// Any test target, and third-party packages in production.
    TestOnlyAndThirdParty,
}

impl Default for Visibility {
    /// `ThirdParty`, the most conservative choice.
    fn default() -> (r: Visibility)
        ensures
            r == Visibility::ThirdParty,
    {
        Visibility::ThirdParty
    }
}

/// One dependency declared in the override manifest.
pub struct DeclaredDependency {
    pub name: String,
    /// The epoch that the manifest asks for.
    pub version: Epoch,
    /// Declared in the test-only list rather than the public one.
    pub testonly: bool,
    pub allow_first_party_usage: bool,
    pub build_script_outputs: Vec<String>,
    pub gn_variables_lib: Option<String>,
}

/// What the build-file generator is told about one vendored package.
pub struct PerCrateMetadata {
    pub build_script_outputs: Vec<String>,
    pub gn_variables: Option<String>,
    pub visibility: Visibility,
}

/// The visibility that a declared dependency gets.
pub open spec fn declared_visibility(d: DeclaredDependency) -> Visibility {
    if !d.allow_first_party_usage {
        Visibility::ThirdParty
    } else if d.testonly {
        Visibility::TestOnlyAndThirdParty
    } else {
        Visibility::Public
    }
}

/// Index `i` of the registry is the first package named `name` matching the
/// epoch `e`.
pub open spec fn is_first_match(ids: Seq<(Seq<char>, Version)>, name: Seq<char>, e: Epoch, i: int) -> bool {
    0 <= i < ids.len() && ids[i].0 == name && e.version_req().spec_matches(ids[i].1) && forall|j: int|
        0 <= j < i ==> !(ids[j].0 == name && e.version_req().spec_matches(ids[j].1))
}

pub open spec fn has_match(ids: Seq<(Seq<char>, Version)>, name: Seq<char>, e: Epoch) -> bool {
    exists|i: int| 0 <= i < ids.len() && ids[i].0 == name && e.version_req().spec_matches(ids[i].1)
}

/// A declared dependency that no vendored package satisfies.
pub struct NotVendored {
    pub name: String,
    pub version: Epoch,
}

fn copy_option_text(s: &Option<String>) -> (r: Option<String>)
    ensures
        r == *s,
{
    match s {
        Some(t) => Some(t.clone()),
        None => None,
    }
}

fn copy_text_list(v: &Vec<String>) -> (r: Vec<String>)
    ensures
        r@ == v@,
{
    let mut r: Vec<String> = Vec::new();
    let mut i: usize = 0;
    while i < v.len()
        invariant
            i <= v@.len(),
            r@ == v@.take(i as int),
        decreases v@.len() - i,
    {
        r.push(v[i].clone());
        assert(r@ =~= v@.take(i + 1));
        i = i + 1;
    }
    assert(v@.take(v@.len() as int) =~= v@);
    r
}

/// Resolve each declared dependency to its vendored package and compute its
/// metadata. Fails on the first declared dependency with no vendored match.
pub fn collect_crate_metadata(source: &ThirdPartySource, declared: &Vec<DeclaredDependency>) -> (r: Result<
    Vec<(VendoredCrate, PerCrateMetadata)>,
    NotVendored,
>)
    ensures
        r is Ok <==> forall|k: int| 0 <= k < declared@.len() ==> has_match(source@, #[trigger] declared@[k].name@, declared@[k].version),
        r matches Ok(v) ==> v@.len() == declared@.len() && forall|k: int| 0 <= k < v@.len() ==> {
            &&& exists|i: int| is_first_match(source@, declared@[k].name@, declared@[k].version, i) && source@[i] == (#[trigger] v@[k]).0@
            &&& v@[k].1.visibility == declared_visibility(declared@[k])
            &&& v@[k].1.build_script_outputs@ == declared@[k].build_script_outputs@
            &&& v@[k].1.gn_variables == declared@[k].gn_variables_lib
        },
        r matches Err(e) ==> exists|k: int| 0 <= k < declared@.len() && !has_match(source@, #[trigger] declared@[k].name@, declared@[k].version)
            && e.name@ == declared@[k].name@ && e.version == declared@[k].version,
{
    let mut out: Vec<(VendoredCrate, PerCrateMetadata)> = Vec::new();
    let mut k: usize = 0;
    while k < declared.len()
        invariant
            k <= declared@.len(),
            out@.len() == k,
            forall|j: int| 0 <= j < k ==> has_match(source@, #[trigger] declared@[j].name@, declared@[j].version),
            forall|j: int| 0 <= j < k ==> {
                &&& exists|i: int| is_first_match(source@, declared@[j].name@, declared@[j].version, i) && source@[i] == (#[trigger] out@[j]).0@
                &&& out@[j].1.visibility == declared_visibility(declared@[j])
                &&& out@[j].1.build_script_outputs@ == declared@[j].build_script_outputs@
                &&& out@[j].1.gn_variables == declared@[j].gn_variables_lib
            },
        decreases declared@.len() - k,
    {
        let d = &declared[k];
        let req = d.version.to_version_req();
        match source.find_match(d.name.as_str(), &req) {
            None => {
                return Err(NotVendored { name: d.name.clone(), version: d.version });
            },
            Some(id) => {
                let visibility = if !d.allow_first_party_usage {
                    Visibility::ThirdParty
                } else if d.testonly {
                    Visibility::TestOnlyAndThirdParty
                } else {
                    Visibility::Public
                };
                let meta = PerCrateMetadata {
                    build_script_outputs: copy_text_list(&d.build_script_outputs),
                    gn_variables: copy_option_text(&d.gn_variables_lib),
                    visibility,
                };
                let ghost before = out@;
                out.push((id, meta));
                assert forall|j: int| 0 <= j < k + 1 implies {
                    &&& exists|i: int| is_first_match(source@, declared@[j].name@, declared@[j].version, i) && source@[i] == (#[trigger] out@[j]).0@
                    &&& out@[j].1.visibility == declared_visibility(declared@[j])
                    &&& out@[j].1.build_script_outputs@ == declared@[j].build_script_outputs@
                    &&& out@[j].1.gn_variables == declared@[j].gn_variables_lib
                } by {
                    if j < k {
                        assert(out@[j] == before[j]);
                    }
                }
            },
        }
        k = k + 1;
    }
    Ok(out)
}

/// One directory of the toolchain's vendor directory, with the identity that
/// its manifest declares, if it has one.
pub struct StdVendoredDir {
    pub dir_name: String,
    pub package: Option<VendoredCrate>,
}

pub enum StdVendorError {
    /// The directory holds no manifest.
    MissingManifest(String),
    /// The directory is not named `<name>-<version>` after its manifest.
    DirectoryMismatch { dir_name: String, package: VendoredCrate },
}

pub open spec fn std_dir_ok(d: StdVendoredDir) -> bool {
    d.package is Some && d.dir_name@ == std_path_text(d.package->Some_0@)
}

/// Check the toolchain's vendored packages: each directory has a manifest
/// and is named after it. Fails on the first directory that does not.
pub fn collect_std_vendored_crates(dirs: &Vec<StdVendoredDir>) -> (r: Result<Vec<VendoredCrate>, StdVendorError>)
    ensures
        r is Ok <==> forall|k: int| 0 <= k < dirs@.len() ==> std_dir_ok(#[trigger] dirs@[k]),
        r matches Ok(v) ==> v@.len() == dirs@.len() && forall|k: int| 0 <= k < v@.len() ==> (#[trigger] v@[k])@ == dirs@[k].package->Some_0@,
        r matches Err(e) ==> exists|k: int| 0 <= k < dirs@.len() && !std_dir_ok(#[trigger] dirs@[k]) && (forall|j: int| 0 <= j < k ==> std_dir_ok(dirs@[j])) && match e {
            StdVendorError::MissingManifest(n) => n@ == dirs@[k].dir_name@ && dirs@[k].package is None,
            StdVendorError::DirectoryMismatch { dir_name, package } => dir_name@ == dirs@[k].dir_name@ && dirs@[k].package is Some && package@ == dirs@[k].package->Some_0@,
        },
{
    let mut out: Vec<VendoredCrate> = Vec::new();
    let mut k: usize = 0;
    while k < dirs.len()
        invariant
            k <= dirs@.len(),
            out@.len() == k,
            forall|j: int| 0 <= j < k ==> std_dir_ok(#[trigger] dirs@[j]),
            forall|j: int| 0 <= j < k ==> (#[trigger] out@[j])@ == dirs@[j].package->Some_0@,
        decreases dirs@.len() - k,
    {
        let d = &dirs[k];
        match &d.package {
            None => {
                return Err(StdVendorError::MissingManifest(d.dir_name.clone()));
            },
            Some(id) => {
                if std_crate_path(id) != d.dir_name {
                    return Err(StdVendorError::DirectoryMismatch { dir_name: d.dir_name.clone(), package: id.duplicate() });
                }
                out.push(id.duplicate());
            },
        }
        k = k + 1;
    }
    Ok(out)
}

/// Whether the path `p` is `root` or lies under it.
pub open spec fn path_within(p: Seq<char>, root: Seq<char>) -> bool {
    p == root || (p.len() > root.len() && p.take(root.len() as int) == root && p[root.len() as int] == '/')
}

/// `p`, under `root`, moved under `installed` instead.
pub open spec fn rehome(p: Seq<char>, root: Seq<char>, installed: Seq<char>) -> Seq<char> {
    installed + p.skip(root.len() as int)
}

pub open spec fn text_of(s: Option<String>) -> Option<Seq<char>> {
    match s {
        Some(t) => Some(t@),
        None => None,
    }
}

pub open spec fn is_normal(d: ResolvedDependency) -> bool {
    d.dependency_kinds@.contains(DependencyKind::Normal)
}

/// The dependencies with a normal edge, in order.
pub open spec fn normal_deps(ds: Seq<ResolvedDependency>) -> Seq<ResolvedDependency>
    decreases ds.len(),
{
    if ds.len() == 0 {
        Seq::empty()
    } else {
        let prev = normal_deps(ds.drop_last());
        if is_normal(ds.last()) {
            prev.push(ds.last())
        } else {
            prev
        }
    }
}

/// The library target and the build script, where present, lie under the
/// toolchain root.
pub open spec fn paths_local(d: ResolvedDependency, root: Seq<char>) -> bool {
    (match d.lib_target {
        Some(p) => path_within(p@, root),
        None => true,
    }) && match d.build_script {
        Some(p) => path_within(p@, root),
        None => true,
    }
}

pub open spec fn rehome_option(p: Option<String>, root: Seq<char>, installed: Seq<char>) -> Option<Seq<char>> {
    match p {
        Some(t) => Some(rehome(t@, root, installed)),
        None => None,
    }
}

pub open spec fn rehomed_lib(d: ResolvedDependency, root: Seq<char>, installed: Seq<char>) -> Option<Seq<char>> {
    rehome_option(d.lib_target, root, installed)
}

pub open spec fn rehomed_build_script(d: ResolvedDependency, root: Seq<char>, installed: Seq<char>) -> Option<Seq<char>> {
    rehome_option(d.build_script, root, installed)
}

/// A third-party library that the toolchain's vendor directory must hold.
pub open spec fn needs_vendored(d: ResolvedDependency) -> bool {
    !d.is_local && d.lib_target is Some
}

/// `pre` is `ns` with its library and build script paths moved from `root`
/// to `installed`, and nothing else changed.
pub open spec fn rehomed_from(pre: Seq<ResolvedDependency>, ns: Seq<ResolvedDependency>, root: Seq<char>, installed: Seq<char>) -> bool {
    pre.len() == ns.len() && forall|k: int| 0 <= k < pre.len() ==> {
        let d = #[trigger] ns[k];
        &&& pre[k].package_name == d.package_name
        &&& pre[k].version == d.version
        &&& pre[k].is_local == d.is_local
        &&& pre[k].dependency_path == d.dependency_path
        &&& pre[k].dependency_kinds == d.dependency_kinds
        &&& text_of(pre[k].lib_target) == rehomed_lib(d, root, installed)
        &&& text_of(pre[k].build_script) == rehomed_build_script(d, root, installed)
    }
}

pub open spec fn version_le(a: Version, b: Version) -> bool {
    a.major < b.major || (a.major == b.major && (a.minor < b.minor || (a.minor == b.minor && a.patch <= b.patch)))
}

/// `a` comes no later than `b` by package name, then by version.
pub open spec fn dependency_le(a: ResolvedDependency, b: ResolvedDependency) -> bool {
    if a.package_name@ == b.package_name@ {
        version_le(a.version, b.version)
    } else {
        text_le(a.package_name@, b.package_name@)
    }
}

pub open spec fn sorted_by_name_and_version(s: Seq<ResolvedDependency>) -> bool {
    forall|i: int, j: int| 0 <= i < j < s.len() ==> dependency_le(s[i], s[j])
}

/// The key that dependencies are ordered by: package name, then version.
pub(crate) fn dependency_sort_key(d: &ResolvedDependency) -> (r: (String, u64, u64, u64))
    ensures
        r.0@ == d.package_name@,
        r.1 == d.version.major,
        r.2 == d.version.minor,
        r.3 == d.version.patch,
{
    (d.package_name.clone(), d.version.major, d.version.minor, d.version.patch)
}

/// Relies on `slice::sort_unstable_by_key`, with std's order on the key
/// tuples: lexicographic, and on `String` by code point.
#[verifier::external_body]
fn sort_by_name_and_version(deps: &mut Vec<ResolvedDependency>)
    ensures
        final(deps)@.to_multiset() == old(deps)@.to_multiset(),
        sorted_by_name_and_version(final(deps)@),
{
    deps.sort_unstable_by_key(|d| dependency_sort_key(d))
}

pub enum StdDepsError {
    /// A library target or build script lies outside the toolchain tree.
    NotLocallyAvailable { name: String, version: Version },
    /// A third-party library is not among the toolchain's vendored packages.
    NotVendored { name: String, version: Version },
}

fn has_normal_kind(kinds: &Vec<DependencyKind>) -> (r: bool)
    ensures
        r == kinds@.contains(DependencyKind::Normal),
{
    let mut i: usize = 0;
    while i < kinds.len()
        invariant
            i <= kinds@.len(),
            forall|j: int| 0 <= j < i ==> kinds@[j] != DependencyKind::Normal,
        decreases kinds@.len() - i,
    {
        if kinds[i] == DependencyKind::Normal {
            assert(kinds@[i as int] == DependencyKind::Normal);
            return true;
        }
        i = i + 1;
    }
    false
}

fn within(p: &str, root: &str) -> (r: bool)
    ensures
        r == path_within(p@, root@),
{
    let n = p.unicode_len();
    let m = root.unicode_len();
    if n < m {
        return false;
    }
    let mut i: usize = 0;
    while i < m
        invariant
            n == p@.len(),
            m == root@.len(),
            m <= n,
            i <= m,
            forall|j: int| 0 <= j < i ==> p@[j] == root@[j],
        decreases m - i,
    {
        if p.get_char(i) != root.get_char(i) {
            assert(p@.take(m as int)[i as int] != root@[i as int]);
            return false;
        }
        i = i + 1;
    }
    assert(p@.take(m as int) =~= root@);
    if n == m {
        assert(p@ =~= root@);
        true
    } else {
        p.get_char(m) == '/'
    }
}

fn rehome_path(p: &str, root: &str, installed: &str) -> (r: String)
    requires
        root@.len() <= p@.len(),
    ensures
        r@ == rehome(p@, root@, installed@),
{
    let mut r = String::from_str(installed);
    let rest = p.substring_char(root.unicode_len(), p.unicode_len());
    r.append(rest);
    assert(r@ =~= rehome(p@, root@, installed@));
    r
}

fn contains_vendored(v: &Vec<VendoredCrate>, d: &ResolvedDependency) -> (r: bool)
    ensures
        r == exists|i: int| 0 <= i < v@.len() && (#[trigger] v@[i])@ == d.id(),
{
    let id = d.crate_id();
    let mut i: usize = 0;
    while i < v.len()
        invariant
            i <= v@.len(),
            id@ == d.id(),
            forall|j: int| 0 <= j < i ==> (#[trigger] v@[j])@ != d.id(),
        decreases v@.len() - i,
    {
        if v[i].same_as(&id) {
            return true;
        }
        i = i + 1;
    }
    false
}

/// Keep the dependencies with a normal edge, check that their library and
/// build script paths lie in the toolchain tree `root`, move them under
/// `installed`, and check that every third-party library among them is
/// vendored in the toolchain. The result is ordered by package name, then
/// version. The paths are canonical, so `root` has no trailing `/`.
#[verifier::loop_isolation(false)]
pub fn prepare_std_dependencies(
    deps: Vec<ResolvedDependency>,
    root: &str,
    installed: &str,
    vendored: &Vec<VendoredCrate>,
) -> (r: Result<Vec<ResolvedDependency>, StdDepsError>)
    ensures
        r is Ok <==> (forall|k: int| 0 <= k < normal_deps(deps@).len() ==> paths_local(#[trigger] normal_deps(deps@)[k], root@))
            && (forall|k: int| 0 <= k < normal_deps(deps@).len() && needs_vendored(#[trigger] normal_deps(deps@)[k]) ==> exists|i: int|
            0 <= i < vendored@.len() && (#[trigger] vendored@[i])@ == normal_deps(deps@)[k].id()),
        r matches Ok(out) ==> sorted_by_name_and_version(out@) && exists|pre: Seq<ResolvedDependency>|
            rehomed_from(pre, normal_deps(deps@), root@, installed@) && #[trigger] out@.to_multiset() == pre.to_multiset(),
        r matches Err(StdDepsError::NotLocallyAvailable { name, version }) ==> exists|k: int|
            0 <= k < normal_deps(deps@).len() && !paths_local(#[trigger] normal_deps(deps@)[k], root@) && name@ == normal_deps(deps@)[k].package_name@
                && version == normal_deps(deps@)[k].version,
        r matches Err(StdDepsError::NotVendored { name, version }) ==> (forall|k: int| 0 <= k < normal_deps(deps@).len() ==> paths_local(#[trigger] normal_deps(deps@)[k], root@))
            && exists|k: int| 0 <= k < normal_deps(deps@).len() && needs_vendored(#[trigger] normal_deps(deps@)[k]) && !(exists|i: int|
            0 <= i < vendored@.len() && (#[trigger] vendored@[i])@ == normal_deps(deps@)[k].id()) && name@ == normal_deps(deps@)[k].package_name@
                && version == normal_deps(deps@)[k].version,
{
    let ghost orig = deps@;
    let ghost ns = normal_deps(orig);
    let mut deps = deps;
    let mut kept: Vec<ResolvedDependency> = Vec::new();
    let mut taken: usize = 0;
    let total = deps.len();
    while deps.len() > 0
        invariant
            total == orig.len(),
            taken <= orig.len(),
            deps@ == orig.skip(taken as int),
            kept@.len() == normal_deps(orig.take(taken as int)).len(),
            forall|k: int| 0 <= k < kept@.len() ==> paths_local(#[trigger] normal_deps(orig.take(taken as int))[k], root@),
            forall|k: int| 0 <= k < kept@.len() ==> {
                let d = #[trigger] normal_deps(orig.take(taken as int))[k];
                &&& kept@[k].package_name == d.package_name
                &&& kept@[k].version == d.version
                &&& kept@[k].is_local == d.is_local
                &&& kept@[k].dependency_path == d.dependency_path
                &&& kept@[k].dependency_kinds == d.dependency_kinds
                &&& text_of(kept@[k].lib_target) == rehomed_lib(d, root@, installed@)
                &&& text_of(kept@[k].build_script) == rehomed_build_script(d, root@, installed@)
            },
        decreases deps@.len(),
    {
        let mut d = deps.remove(0);
        let ghost od = d;
        let ghost prev_ns = normal_deps(orig.take(taken as int));
        assert(od == orig[taken as int]);
        assert(orig.take(taken + 1).drop_last() =~= orig.take(taken as int));
        assert(orig.take(taken + 1).last() == od);
        if has_normal_kind(&d.dependency_kinds) {
            assert(normal_deps(orig.take(taken + 1)) == prev_ns.push(od));
            let lib = match &d.lib_target {
                Some(p) => {
                    if !within(p.as_str(), root) {
                        proof {
                            lemma_normal_prefix(orig, taken as int + 1, prev_ns.len() as int);
                            assert(!paths_local(ns[prev_ns.len() as int], root@));
                        }
                        return Err(StdDepsError::NotLocallyAvailable { name: d.package_name.clone(), version: d.version });
                    }
                    Some(rehome_path(p.as_str(), root, installed))
                },
                None => None,
            };
            let build = match &d.build_script {
                Some(p) => {
                    if !within(p.as_str(), root) {
                        proof {
                            lemma_normal_prefix(orig, taken as int + 1, prev_ns.len() as int);
                            assert(!paths_local(ns[prev_ns.len() as int], root@));
                        }
                        return Err(StdDepsError::NotLocallyAvailable { name: d.package_name.clone(), version: d.version });
                    }
                    Some(rehome_path(p.as_str(), root, installed))
                },
                None => None,
            };
            d.lib_target = lib;
            d.build_script = build;
            let ghost before = kept@;
            kept.push(d);
            assert forall|k: int| 0 <= k < kept@.len() implies {
                let e = #[trigger] normal_deps(orig.take(taken + 1))[k];
                &&& kept@[k].package_name == e.package_name
                &&& kept@[k].version == e.version
                &&& kept@[k].is_local == e.is_local
                &&& kept@[k].dependency_path == e.dependency_path
                &&& kept@[k].dependency_kinds == e.dependency_kinds
                &&& text_of(kept@[k].lib_target) == rehomed_lib(e, root@, installed@)
                &&& text_of(kept@[k].build_script) == rehomed_build_script(e, root@, installed@)
            } by {
                if k < before.len() {
                    assert(kept@[k] == before[k]);
                    assert(normal_deps(orig.take(taken + 1))[k] == prev_ns[k]);
                }
            }
            assert forall|k: int| 0 <= k < kept@.len() implies paths_local(#[trigger] normal_deps(orig.take(taken + 1))[k], root@) by {
                if k < before.len() {
                    assert(normal_deps(orig.take(taken + 1))[k] == prev_ns[k]);
                }
            }
        } else {
            assert(normal_deps(orig.take(taken + 1)) == prev_ns);
        }
        assert(deps@ =~= orig.skip(taken + 1));
        taken = taken + 1;
    }
    assert(orig.take(taken as int) =~= orig);
    let mut k: usize = 0;
    while k < kept.len()
        invariant
            kept@.len() == ns.len(),
            k <= kept@.len(),
            ns == normal_deps(orig),
            forall|j: int| 0 <= j < ns.len() ==> paths_local(#[trigger] ns[j], root@),
            forall|j: int| 0 <= j < kept@.len() ==> {
                let d = #[trigger] ns[j];
                &&& kept@[j].package_name == d.package_name
                &&& kept@[j].version == d.version
                &&& kept@[j].is_local == d.is_local
                &&& kept@[j].dependency_path == d.dependency_path
                &&& kept@[j].dependency_kinds == d.dependency_kinds
                &&& text_of(kept@[j].lib_target) == rehomed_lib(d, root@, installed@)
                &&& text_of(kept@[j].build_script) == rehomed_build_script(d, root@, installed@)
            },
            forall|j: int| 0 <= j < k && needs_vendored(#[trigger] ns[j]) ==> exists|i: int|
                0 <= i < vendored@.len() && (#[trigger] vendored@[i])@ == ns[j].id(),
        decreases kept@.len() - k,
    {
        let d = &kept[k];
        assert(needs_vendored(ns[k as int]) == (!d.is_local && d.lib_target is Some));
        assert(d.id() == ns[k as int].id());
        if !d.is_local && d.lib_target.is_some() && !contains_vendored(vendored, d) {
            assert(needs_vendored(ns[k as int]));
            assert(!(exists|i: int| 0 <= i < vendored@.len() && (#[trigger] vendored@[i])@ == ns[k as int].id()));
            return Err(StdDepsError::NotVendored { name: d.package_name.clone(), version: d.version });
        }
        k = k + 1;
    }
    assert(rehomed_from(kept@, ns, root@, installed@));
    let ghost before = kept@;
    sort_by_name_and_version(&mut kept);
    assert(kept@.to_multiset() == before.to_multiset());
    Ok(kept)
}

/// Where the dependency at `n - 1` is normal and `m` normal ones precede it,
/// it stands at `m` among the normal dependencies of every longer prefix.
proof fn lemma_normal_prefix(ds: Seq<ResolvedDependency>, n: int, m: int)
    requires
        1 <= n <= ds.len(),
        is_normal(ds[n - 1]),
        m == normal_deps(ds.take(n - 1)).len(),
    ensures
        m < normal_deps(ds).len(),
        normal_deps(ds)[m] == ds[n - 1],
    decreases ds.len() - n,
{
    lemma_normal_deps_prefix(ds, n, ds.len() as int);
    assert(ds.take(n).drop_last() =~= ds.take(n - 1));
    assert(normal_deps(ds.take(n)) == normal_deps(ds.take(n - 1)).push(ds[n - 1]));
    assert(ds.take(ds.len() as int) =~= ds);
}

/// The normal dependencies of a prefix begin those of a longer prefix.
proof fn lemma_normal_deps_prefix(ds: Seq<ResolvedDependency>, a: int, b: int)
    requires
        0 <= a <= b <= ds.len(),
    ensures
        normal_deps(ds.take(a)).len() <= normal_deps(ds.take(b)).len(),
        forall|k: int| 0 <= k < normal_deps(ds.take(a)).len() ==> #[trigger] normal_deps(ds.take(b))[k] == normal_deps(ds.take(a))[k],
    decreases b - a,
{
    if a < b {
        lemma_normal_deps_prefix(ds, a, b - 1);
        assert(ds.take(b).drop_last() =~= ds.take(b - 1));
    }
}

} // verus!
