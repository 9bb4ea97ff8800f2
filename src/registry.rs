//! The registry of vendored packages found in the store, and the paths and
//! patch entries derived from it.
use vstd::prelude::*;
use vstd::string::*;

use crate::digits::{decimal, u64_to_decimal};
use crate::epoch::{epoch_of, epoch_tag, Epoch};
use crate::name::{normalize, NormalizedName};
use crate::version::{Version, VersionReq};

verus! {

/// Identifies a vendored package by its manifest's package name and version.
#[derive(Clone, Debug, PartialEq, Eq, Hash, PartialOrd, Ord)]
pub struct VendoredCrate {
    pub name: String,
    pub version: Version,
}

impl View for VendoredCrate {
    type V = (Seq<char>, Version);

    open spec fn view(&self) -> (Seq<char>, Version) {
        (self.name@, self.version)
    }
}

/// Whether a version has an epoch: its major or minor component is not 0.
pub open spec fn has_epoch(v: Version) -> bool {
    v.major != 0 || v.minor != 0
}

/// The epoch of a version, as a spec value.
pub open spec fn version_epoch(v: Version) -> Epoch {
    epoch_of(v.major, v.minor)
}

/// The directory of a package's build file, relative to the store root:
/// `<normalized name>/<epoch tag>`.
pub open spec fn build_path_text(id: (Seq<char>, Version)) -> Seq<char> {
    normalize(id.0) + seq!['/'] + version_epoch(id.1).tag_text()
}

/// The directory of a package's sources, relative to the store root.
pub open spec fn crate_path_text(id: (Seq<char>, Version)) -> Seq<char> {
    build_path_text(id) + seq!['/', 'c', 'r', 'a', 't', 'e']
}

/// The directory name `cargo vendor` gives a package: `<name>-<version>`.
pub open spec fn std_path_text(id: (Seq<char>, Version)) -> Seq<char> {
    id.0 + seq!['-'] + decimal(id.1.major as nat) + seq!['.'] + decimal(id.1.minor as nat) + seq!['.']
        + decimal(id.1.patch as nat)
}

impl VendoredCrate {
    pub fn normalized_name(&self) -> (r: NormalizedName)
        ensures
            r@ == normalize(self.name@),
    {
        NormalizedName::from_crate_name(self.name.as_str())
    }

    /// A copy of this identity.
    pub fn duplicate(&self) -> (r: VendoredCrate)
        ensures
            r@ == self@,
    {
        VendoredCrate { name: self.name.clone(), version: self.version }
    }

    /// Whether two values name the same package identity.
    pub fn same_as(&self, other: &VendoredCrate) -> (r: bool)
        ensures
            r == (self@ == other@),
    {
        self.name == other.name && self.version == other.version
    }
}

/// One epoch directory met while walking the store: the names of the package
/// directory and of the epoch directory, and the identity that the manifest
/// under `crate/` declares, if there is a manifest.
pub struct ScannedDir {
    pub crate_dir: String,
    pub epoch_dir: String,
    pub package: Option<VendoredCrate>,
}

/// Whether a walked directory is laid out as the store requires: a normalized
/// package directory name and an epoch tag.
pub open spec fn dir_accepted(d: ScannedDir) -> bool {
    normalize(d.crate_dir@) == d.crate_dir@ && epoch_tag(d.epoch_dir@) is Valid
}

/// The identities that a walk records, in the order met, each once.
pub open spec fn scanned_ids(ds: Seq<ScannedDir>) -> Seq<(Seq<char>, Version)>
    decreases ds.len(),
{
    if ds.len() == 0 {
        Seq::empty()
    } else {
        let prev = scanned_ids(ds.drop_last());
        let d = ds.last();
        if dir_accepted(d) && d.package is Some && !prev.contains(d.package->Some_0@) {
            prev.push(d.package->Some_0@)
        } else {
            prev
        }
    }
}

/// The accepted epoch directories that hold no manifest, as `crate/epoch`.
pub open spec fn dirs_without_manifest(ds: Seq<ScannedDir>) -> Seq<Seq<char>>
    decreases ds.len(),
{
    if ds.len() == 0 {
        Seq::empty()
    } else {
        let prev = dirs_without_manifest(ds.drop_last());
        let d = ds.last();
        if dir_accepted(d) && d.package is None {
            prev.push(d.crate_dir@ + seq!['/'] + d.epoch_dir@)
        } else {
            prev
        }
    }
}

/// A patch entry pointing a package at its vendored copy.
pub struct PatchSpecification {
    pub package_name: String,
    pub patch_name: String,
    pub path: String,
}

impl View for PatchSpecification {
    type V = (Seq<char>, Seq<char>, Seq<char>);

    open spec fn view(&self) -> (Seq<char>, Seq<char>, Seq<char>) {
        (self.package_name@, self.patch_name@, self.path@)
    }
}

/// The patch entry of a vendored identity: its name, `<name>_<epoch tag>`,
/// and its source directory.
pub open spec fn patch_of(id: (Seq<char>, Version)) -> (Seq<char>, Seq<char>, Seq<char>) {
    (id.0, id.0 + seq!['_'] + version_epoch(id.1).tag_text(), crate_path_text(id))
}

pub open spec fn patch_views(s: Seq<PatchSpecification>) -> Seq<(Seq<char>, Seq<char>, Seq<char>)> {
    s.map_values(|p: PatchSpecification| p@)
}

/// Lexicographic order of texts by code point, as `str`'s order is.
pub open spec fn text_le(a: Seq<char>, b: Seq<char>) -> bool
    decreases a.len(),
{
    if a.len() == 0 {
        true
    } else if b.len() == 0 {
        false
    } else if a[0] != b[0] {
        (a[0] as u32) < (b[0] as u32)
    } else {
        text_le(a.drop_first(), b.drop_first())
    }
}

pub open spec fn sorted_by_patch_name(s: Seq<PatchSpecification>) -> bool {
    forall|i: int, j: int| 0 <= i < j < s.len() ==> text_le(s[i].patch_name@, s[j].patch_name@)
}

/// The set of vendored packages in the store. Package `foo` 1.2.3 lives in
/// `<root>/foo/v1/crate` and `bar` 0.1.2 in `<root>/bar/v0_1/crate`.
pub struct ThirdPartySource {
    crates: Vec<VendoredCrate>,
    without_manifest: Vec<String>,
}

impl View for ThirdPartySource {
    type V = Seq<(Seq<char>, Version)>;

    closed spec fn view(&self) -> Seq<(Seq<char>, Version)> {
        self.crates@.map_values(|c: VendoredCrate| c@)
    }
}

impl ThirdPartySource {
    /// Each identity is present once, and each has an epoch.
    pub open spec fn wf(&self) -> bool {
        self@.no_duplicates() && forall|i: int| 0 <= i < self@.len() ==> has_epoch(#[trigger] self@[i].1)
    }

    pub closed spec fn spec_without_manifest(&self) -> Seq<Seq<char>> {
        self.without_manifest@.map_values(|s: String| s@)
    }

    /// Build the registry from a walk of the store. Directories whose names
    /// are not normalized or not epoch tags are left out; epoch directories
    /// without a manifest are left out and listed.
    pub fn new(dirs: &Vec<ScannedDir>) -> (r: ThirdPartySource)
        requires
            forall|i: int| 0 <= i < dirs@.len() && (#[trigger] dirs@[i]).package is Some ==> has_epoch(
                dirs@[i].package->Some_0.version,
            ),
        ensures
            r.wf(),
            r@ == scanned_ids(dirs@),
            r.spec_without_manifest() == dirs_without_manifest(dirs@),
    {
        let mut crates: Vec<VendoredCrate> = Vec::new();
        let mut without_manifest: Vec<String> = Vec::new();
        let mut i: usize = 0;
        while i < dirs.len()
            invariant
                i <= dirs@.len(),
                forall|k: int| 0 <= k < dirs@.len() && (#[trigger] dirs@[k]).package is Some ==> has_epoch(
                    dirs@[k].package->Some_0.version,
                ),
                crates@.map_values(|c: VendoredCrate| c@) == scanned_ids(dirs@.take(i as int)),
                without_manifest@.map_values(|s: String| s@) == dirs_without_manifest(dirs@.take(i as int)),
                forall|k: int| 0 <= k < crates@.len() ==> has_epoch(#[trigger] crates@[k].version),
                crates@.map_values(|c: VendoredCrate| c@).no_duplicates(),
            decreases dirs@.len() - i,
        {
            let d = &dirs[i];
            let ghost ids = crates@.map_values(|c: VendoredCrate| c@);
            assert(dirs@.take(i + 1).drop_last() =~= dirs@.take(i as int));
            let name_ok = NormalizedName::new(d.crate_dir.as_str()).is_some();
            let epoch_ok = Epoch::from_str(d.epoch_dir.as_str()).is_ok();
            if name_ok && epoch_ok {
                match &d.package {
                    Some(id) => {
                        if !contains_id(&crates, id) {
                            crates.push(id.duplicate());
                            assert(crates@.map_values(|c: VendoredCrate| c@) =~= ids.push(id@));
                            assert forall|a: int, b: int| 0 <= a < b < ids.push(id@).len() implies ids.push(
                                id@,
                            )[a] != ids.push(id@)[b] by {
                                if b == ids.len() {
                                    assert(ids.contains(ids[a]));
                                }
                            }
                        }
                    },
                    None => {
                        let ghost before = without_manifest@.map_values(|s: String| s@);
                        let mut path = d.crate_dir.clone();
                        proof {
                            reveal_strlit("/");
                        }
                        path.append("/");
                        assert(path@ =~= d.crate_dir@ + seq!['/']);
                        path.append(d.epoch_dir.as_str());
                        assert(path@ =~= d.crate_dir@ + seq!['/'] + d.epoch_dir@);
                        without_manifest.push(path);
                        assert(without_manifest@.map_values(|s: String| s@) =~= before.push(
                            d.crate_dir@ + seq!['/'] + d.epoch_dir@,
                        ));
                    },
                }
            }
            i = i + 1;
        }
        assert(dirs@.take(dirs@.len() as int) =~= dirs@);
        ThirdPartySource { crates, without_manifest }
    }

    /// The epoch directories that were skipped for holding no manifest.
    pub fn without_manifest(&self) -> (r: &Vec<String>)
        ensures
            r@.map_values(|s: String| s@) == self.spec_without_manifest(),
    {
        &self.without_manifest
    }

    /// Find the first recorded package named `name` whose version meets
    /// `req`, or `None` where there is none.
    pub fn find_match(&self, name: &str, req: &VersionReq) -> (r: Option<VendoredCrate>)
        ensures
            match r {
                Some(c) => exists|i: int|
                    0 <= i < self@.len() && #[trigger] self@[i] == c@ && self@[i].0 == name@ && req.spec_matches(
                        self@[i].1,
                    ) && forall|j: int|
                        0 <= j < i ==> !(self@[j].0 == name@ && req.spec_matches(self@[j].1)),
                None => forall|i: int|
                    0 <= i < self@.len() ==> !(#[trigger] self@[i].0 == name@ && req.spec_matches(self@[i].1)),
            },
    {
        let wanted = String::from_str(name);
        let mut i: usize = 0;
        while i < self.crates.len()
            invariant
                i <= self@.len(),
                self@.len() == self.crates@.len(),
                wanted@ == name@,
                forall|j: int| 0 <= j < i ==> !(#[trigger] self@[j].0 == name@ && req.spec_matches(self@[j].1)),
            decreases self.crates@.len() - i,
        {
            let c = &self.crates[i];
            assert(self@[i as int] == c@);
            if c.name == wanted && req.matches(&c.version) {
                return Some(c.duplicate());
            }
            i = i + 1;
        }
        None
    }

    /// The identities present in the store, in the order recorded.
    pub fn present_crates(&self) -> (r: &Vec<VendoredCrate>)
        ensures
            r@.map_values(|c: VendoredCrate| c@) == self@,
    {
        &self.crates
    }

    /// Whether `id` is present in the store.
    pub fn contains(&self, id: &VendoredCrate) -> (r: bool)
        ensures
            r == self@.contains(id@),
    {
        contains_id(&self.crates, id)
    }

    /// The patch entries of all vendored packages, ordered by patch name so
    /// that the root manifest built from them is the same on every run.
    pub fn cargo_patches(&self) -> (r: Vec<PatchSpecification>)
        requires
            self.wf(),
        ensures
            patch_views(r@).to_multiset() == self@.map_values(|id: (Seq<char>, Version)| patch_of(id)).to_multiset(),
            sorted_by_patch_name(r@),
    {
        let mut patches: Vec<PatchSpecification> = Vec::new();
        let mut i: usize = 0;
        while i < self.crates.len()
            invariant
                self.wf(),
                i <= self@.len(),
                self@.len() == self.crates@.len(),
                patch_views(patches@) == self@.take(i as int).map_values(
                    |id: (Seq<char>, Version)| patch_of(id),
                ),
            decreases self.crates@.len() - i,
        {
            let c = &self.crates[i];
            assert(self@[i as int] == c@);
            assert(has_epoch(self@[i as int].1));
            let epoch = Epoch::from_version(&c.version);
            let tag = epoch.to_string();
            let mut patch_name = c.name.clone();
            proof {
                reveal_strlit("_");
            }
            patch_name.append("_");
            assert(patch_name@ =~= c.name@ + seq!['_']);
            patch_name.append(tag.as_str());
            assert(patch_name@ =~= c.name@ + seq!['_'] + version_epoch(c.version).tag_text());
            let p = PatchSpecification {
                package_name: c.name.clone(),
                patch_name,
                path: Self::crate_path(c),
            };
            assert(p@ == patch_of(c@));
            let ghost before = patches@;
            patches.push(p);
            assert(patch_views(patches@) =~= patch_views(before).push(patch_of(c@)));
            assert(self@.take(i + 1) =~= self@.take(i as int).push(c@));
            i = i + 1;
        }
        assert(self@.take(self@.len() as int) =~= self@);
        sort_by_patch_name(&mut patches);
        patches
    }

    /// The directory of `id`'s sources, relative to the store root.
    pub fn crate_path(id: &VendoredCrate) -> (r: String)
        requires
            has_epoch(id.version),
        ensures
            r@ == crate_path_text(id@),
    {
        let mut path = Self::build_path(id);
        proof {
            reveal_strlit("/crate");
        }
        path.append("/crate");
        path
    }

    /// The directory of `id`'s build file, relative to the store root.
    pub fn build_path(id: &VendoredCrate) -> (r: String)
        requires
            has_epoch(id.version),
        ensures
            r@ == build_path_text(id@),
    {
        let name = id.normalized_name();
        let tag = Epoch::from_version(&id.version).to_string();
        let mut path = String::from_str(name.as_str());
        proof {
            reveal_strlit("/");
        }
        path.append("/");
        path.append(tag.as_str());
        path
    }
}

fn contains_id(crates: &Vec<VendoredCrate>, id: &VendoredCrate) -> (r: bool)
    ensures
        r == crates@.map_values(|c: VendoredCrate| c@).contains(id@),
{
    let ghost ids = crates@.map_values(|c: VendoredCrate| c@);
    let mut i: usize = 0;
    while i < crates.len()
        invariant
            i <= crates@.len(),
            ids == crates@.map_values(|c: VendoredCrate| c@),
            forall|j: int| 0 <= j < i ==> ids[j] != id@,
        decreases crates@.len() - i,
    {
        if crates[i].same_as(id) {
            assert(ids[i as int] == id@);
            return true;
        }
        i = i + 1;
    }
    false
}

/// Relies on `slice::sort_unstable_by` with `str`'s order on the patch names:
/// the same entries, ordered by patch name.
#[verifier::external_body]
fn sort_by_patch_name(patches: &mut Vec<PatchSpecification>)
    ensures
        patch_views(final(patches)@).to_multiset() == patch_views(old(patches)@).to_multiset(),
        sorted_by_patch_name(final(patches)@),
{
    patches.sort_unstable_by(|a, b| a.patch_name.cmp(&b.patch_name))
}

/// The subdirectory that `cargo vendor` gives `id`: `<name>-<version>`.
pub fn std_crate_path(id: &VendoredCrate) -> (r: String)
    ensures
        r@ == std_path_text(id@),
{
    let mut path = id.name.clone();
    proof {
        reveal_strlit("-");
        reveal_strlit(".");
    }
    path.append("-");
    path.append(u64_to_decimal(id.version.major).as_str());
    path.append(".");
    path.append(u64_to_decimal(id.version.minor).as_str());
    path.append(".");
    path.append(u64_to_decimal(id.version.patch).as_str());
    path
}

} // verus!
