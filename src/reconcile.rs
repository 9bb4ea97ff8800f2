//! Reconciliation of the vendored registry against the resolver's output, and
//! of generated build files against the registry.
use vstd::prelude::*;

use crate::epoch::Epoch;
use crate::registry::{version_epoch, ThirdPartySource, VendoredCrate};
use crate::version::Version;

verus! {

/// The kind of a dependency edge.
#[derive(Clone, Copy, Debug, PartialEq, Eq, Structural, Hash)]
pub enum DependencyKind {
    Normal,
    Build,
    Development,
}

/// One package of the resolver's dependency graph.
pub struct ResolvedDependency {
    pub package_name: String,
    pub version: Version,
    /// Whether the resolver took the package from the local vendored path.
    pub is_local: bool,
    /// The chain of packages that required this one, for error reports.
    pub dependency_path: Vec<String>,
    pub dependency_kinds: Vec<DependencyKind>,
    /// The library target's root file, if the package has a library.
    pub lib_target: Option<String>,
    pub build_script: Option<String>,
}

impl ResolvedDependency {
    pub open spec fn id(self) -> (Seq<char>, Version) {
        (self.package_name@, self.version)
    }

    /// The (name, epoch) slot that this dependency takes.
    pub open spec fn key(self) -> (Seq<char>, Epoch) {
        (self.package_name@, version_epoch(self.version))
    }

    pub fn crate_id(&self) -> (r: VendoredCrate)
        ensures
            r@ == self.id(),
    {
        VendoredCrate { name: self.package_name.clone(), version: self.version }
    }
}

#[derive(Clone, Copy, Debug, PartialEq, Eq, Structural, Hash)]
pub enum DiagnosticKind {
    /// A resolved dependency has no vendored copy.
    Missing,
    /// A vendored copy exists, but the resolver took the package from
    /// elsewhere: something asks for a stricter version than the vendored one.
    NotLocal,
    /// A vendored package that no resolved dependency takes the slot of.
    Unused,
}

/// A discrepancy between the registry and the resolved dependencies.
pub struct Diagnostic {
    pub kind: DiagnosticKind,
    pub name: String,
    pub version: Version,
    /// The requirement chain, for a missing dependency; else empty.
    pub chain: Vec<String>,
}

pub type DiagnosticView = (DiagnosticKind, Seq<char>, Version, Seq<Seq<char>>);

pub open spec fn texts(s: Seq<String>) -> Seq<Seq<char>> {
    s.map_values(|t: String| t@)
}

impl View for Diagnostic {
    type V = DiagnosticView;

    open spec fn view(&self) -> DiagnosticView {
        (self.kind, self.name@, self.version, texts(self.chain@))
    }
}

pub open spec fn diagnostic_views(s: Seq<Diagnostic>) -> Seq<DiagnosticView> {
    s.map_values(|d: Diagnostic| d@)
}

pub enum ReconcileError {
    /// Two resolved dependencies take one (name, epoch) slot with different
    /// versions: `name version` was met after `conflict`.
    EpochCollision { name: String, version: Version, conflict: Version },
    /// Every discrepancy found, in the order found.
    Diagnostics(Vec<Diagnostic>),
}

/// Dependencies `i` and `j` take one slot with different versions.
pub open spec fn collides(ds: Seq<ResolvedDependency>, i: int, j: int) -> bool {
    ds[i].key() == ds[j].key() && ds[i].version != ds[j].version
}

pub open spec fn has_collision(ds: Seq<ResolvedDependency>) -> bool {
    exists|i: int, j: int| 0 <= i < j < ds.len() && #[trigger] collides(ds, i, j)
}

/// Some dependency takes the slot `key`.
pub open spec fn requested(ds: Seq<ResolvedDependency>, key: (Seq<char>, Epoch)) -> bool {
    exists|i: int| 0 <= i < ds.len() && #[trigger] ds[i].key() == key
}

/// What one resolved dependency contributes to the diagnostics.
pub open spec fn dependency_diagnostic(d: ResolvedDependency, present: Seq<(Seq<char>, Version)>) -> Seq<DiagnosticView> {
    if !present.contains(d.id()) {
        seq![(DiagnosticKind::Missing, d.package_name@, d.version, texts(d.dependency_path@))]
    } else if !d.is_local {
        seq![(DiagnosticKind::NotLocal, d.package_name@, d.version, Seq::<Seq<char>>::empty())]
    } else {
        Seq::empty()
    }
}

pub open spec fn dependency_diagnostics(ds: Seq<ResolvedDependency>, present: Seq<(Seq<char>, Version)>) -> Seq<DiagnosticView>
    decreases ds.len(),
{
    if ds.len() == 0 {
        Seq::empty()
    } else {
        dependency_diagnostics(ds.drop_last(), present) + dependency_diagnostic(ds.last(), present)
    }
}

/// What one vendored identity contributes to the diagnostics.
pub open spec fn unused_diagnostic(p: (Seq<char>, Version), ds: Seq<ResolvedDependency>) -> Seq<DiagnosticView> {
    if !requested(ds, (p.0, version_epoch(p.1))) {
        seq![(DiagnosticKind::Unused, p.0, p.1, Seq::<Seq<char>>::empty())]
    } else {
        Seq::empty()
    }
}

pub open spec fn unused_diagnostics(present: Seq<(Seq<char>, Version)>, ds: Seq<ResolvedDependency>) -> Seq<DiagnosticView>
    decreases present.len(),
{
    if present.len() == 0 {
        Seq::empty()
    } else {
        unused_diagnostics(present.drop_last(), ds) + unused_diagnostic(present.last(), ds)
    }
}

/// All diagnostics of one reconciliation: those of the resolved dependencies
/// in their order, then those of the vendored identities in theirs.
pub open spec fn diagnostics(ds: Seq<ResolvedDependency>, present: Seq<(Seq<char>, Version)>) -> Seq<DiagnosticView> {
    dependency_diagnostics(ds, present) + unused_diagnostics(present, ds)
}

fn copy_texts(v: &Vec<String>) -> (r: Vec<String>)
    ensures
        texts(r@) == texts(v@),
{
    let mut r: Vec<String> = Vec::new();
    let mut i: usize = 0;
    while i < v.len()
        invariant
            i <= v@.len(),
            texts(r@) == texts(v@.take(i as int)),
        decreases v@.len() - i,
    {
        let ghost before = r@;
        r.push(v[i].clone());
        assert(texts(r@) =~= texts(before).push(v@[i as int]@));
        assert(v@.take(i + 1) =~= v@.take(i as int).push(v@[i as int]));
        assert(texts(v@.take(i + 1)) =~= texts(v@.take(i as int)).push(v@[i as int]@));
        i = i + 1;
    }
    assert(v@.take(v@.len() as int) =~= v@);
    r
}

/// Find a pair of dependencies that take one slot with different versions.
fn find_collision(deps: &Vec<ResolvedDependency>) -> (r: Option<(usize, usize)>)
    ensures
        match r {
            Some((i, j)) => i < j < deps@.len() && collides(deps@, i as int, j as int),
            None => !has_collision(deps@),
        },
{
    let mut j: usize = 0;
    while j < deps.len()
        invariant
            j <= deps@.len(),
            forall|a: int, b: int| 0 <= a < b < j ==> !#[trigger] collides(deps@, a, b),
        decreases deps@.len() - j,
    {
        let key_epoch = Epoch::from_version(&deps[j].version);
        let mut i: usize = 0;
        while i < j
            invariant
                j < deps@.len(),
                i <= j,
                key_epoch == version_epoch(deps@[j as int].version),
                forall|a: int| 0 <= a < i ==> !#[trigger] collides(deps@, a, j as int),
            decreases j - i,
        {
            if deps[i].package_name == deps[j].package_name && Epoch::from_version(&deps[i].version)
                == key_epoch && deps[i].version != deps[j].version {
                return Some((i, j));
            }
            i = i + 1;
        }
        j = j + 1;
    }
    None
}

/// Whether some dependency takes the slot of `name` at `epoch`.
fn is_requested(deps: &Vec<ResolvedDependency>, name: &String, epoch: Epoch) -> (r: bool)
    ensures
        r == requested(deps@, (name@, epoch)),
{
    let mut i: usize = 0;
    while i < deps.len()
        invariant
            i <= deps@.len(),
            forall|a: int| 0 <= a < i ==> #[trigger] deps@[a].key() != (name@, epoch),
        decreases deps@.len() - i,
    {
        if deps[i].package_name == *name && Epoch::from_version(&deps[i].version) == epoch {
            assert(deps@[i as int].key() == (name@, epoch));
            return true;
        }
        i = i + 1;
    }
    false
}

/// Check that the resolved dependencies and the vendored packages agree slot
/// for slot. A collision of two versions in one slot fails at once; otherwise
/// every missing, non-local and unused package is reported together.
pub fn reconcile(deps: &Vec<ResolvedDependency>, source: &ThirdPartySource) -> (r: Result<(), ReconcileError>)
    ensures
        has_collision(deps@) <==> r matches Err(ReconcileError::EpochCollision { .. }),
        r matches Err(ReconcileError::EpochCollision { name, version, conflict }) ==> exists|i: int, j: int|
            0 <= i < j < deps@.len() && #[trigger] collides(deps@, i, j) && name@ == deps@[j].package_name@
                && version == deps@[j].version && conflict == deps@[i].version,
        r is Ok ==> diagnostics(deps@, source@).len() == 0,
        !has_collision(deps@) && diagnostics(deps@, source@).len() == 0 ==> r is Ok,
        r matches Err(ReconcileError::Diagnostics(v)) ==> diagnostic_views(v@) == diagnostics(deps@, source@),
{
    match find_collision(deps) {
        Some((i, j)) => {
            return Err(
                ReconcileError::EpochCollision {
                    name: deps[j].package_name.clone(),
                    version: deps[j].version,
                    conflict: deps[i].version,
                },
            );
        },
        None => {},
    }
    let mut found: Vec<Diagnostic> = Vec::new();
    let mut i: usize = 0;
    while i < deps.len()
        invariant
            i <= deps@.len(),
            diagnostic_views(found@) == dependency_diagnostics(deps@.take(i as int), source@),
        decreases deps@.len() - i,
    {
        let d = &deps[i];
        let ghost before = diagnostic_views(found@);
        assert(deps@.take(i + 1).drop_last() =~= deps@.take(i as int));
        let id = d.crate_id();
        if !source.contains(&id) {
            let diag = Diagnostic {
                kind: DiagnosticKind::Missing,
                name: d.package_name.clone(),
                version: d.version,
                chain: copy_texts(&d.dependency_path),
            };
            found.push(diag);
            assert(diagnostic_views(found@) =~= before.push(diag@));
        } else if !d.is_local {
            let diag = Diagnostic {
                kind: DiagnosticKind::NotLocal,
                name: d.package_name.clone(),
                version: d.version,
                chain: Vec::new(),
            };
            assert(texts(diag.chain@) =~= Seq::<Seq<char>>::empty());
            found.push(diag);
            assert(diagnostic_views(found@) =~= before.push(diag@));
        }
        assert(diagnostic_views(found@) =~= before + dependency_diagnostic(*d, source@));
        i = i + 1;
    }
    assert(deps@.take(deps@.len() as int) =~= deps@);
    let present = source.present_crates();
    let ghost dep_part = diagnostic_views(found@);
    let mut k: usize = 0;
    while k < present.len()
        invariant
            k <= present@.len(),
            present@.map_values(|c: VendoredCrate| c@) == source@,
            dep_part == dependency_diagnostics(deps@, source@),
            diagnostic_views(found@) == dep_part + unused_diagnostics(source@.take(k as int), deps@),
        decreases present@.len() - k,
    {
        let c = &present[k];
        let ghost before = diagnostic_views(found@);
        assert(source@[k as int] == c@);
        assert(source@.take(k + 1).drop_last() =~= source@.take(k as int));
        if !is_requested(deps, &c.name, Epoch::from_version(&c.version)) {
            let diag = Diagnostic {
                kind: DiagnosticKind::Unused,
                name: c.name.clone(),
                version: c.version,
                chain: Vec::new(),
            };
            assert(texts(diag.chain@) =~= Seq::<Seq<char>>::empty());
            found.push(diag);
            assert(diagnostic_views(found@) =~= before.push(diag@));
        }
        assert(diagnostic_views(found@) =~= before + unused_diagnostic(c@, deps@));
        assert(unused_diagnostics(source@.take(k + 1), deps@) =~= unused_diagnostics(source@.take(k as int), deps@)
            + unused_diagnostic(c@, deps@));
        k = k + 1;
    }
    assert(source@.take(present@.len() as int) =~= source@);
    if found.len() == 0 {
        Ok(())
    } else {
        Err(ReconcileError::Diagnostics(found))
    }
}

/// Why the generated build files do not match the registry one to one.
pub enum BuildFileError {
    /// A build file was generated for a package that is not vendored.
    UnknownCrate(VendoredCrate),
    /// Vendored packages for which no build file was generated, in registry
    /// order.
    MissingBuildFiles(Vec<VendoredCrate>),
}

/// The vendored identities that have no generated build file, in order.
pub open spec fn missing_build_files(present: Seq<(Seq<char>, Version)>, generated: Seq<(Seq<char>, Version)>) -> Seq<(Seq<char>, Version)>
    decreases present.len(),
{
    if present.len() == 0 {
        Seq::empty()
    } else {
        let prev = missing_build_files(present.drop_last(), generated);
        if generated.contains(present.last()) {
            prev
        } else {
            prev.push(present.last())
        }
    }
}

pub open spec fn ids(s: Seq<VendoredCrate>) -> Seq<(Seq<char>, Version)> {
    s.map_values(|c: VendoredCrate| c@)
}

fn contains_crate(v: &Vec<VendoredCrate>, id: &VendoredCrate) -> (r: bool)
    ensures
        r == ids(v@).contains(id@),
{
    let mut i: usize = 0;
    while i < v.len()
        invariant
            i <= v@.len(),
            forall|j: int| 0 <= j < i ==> ids(v@)[j] != id@,
        decreases v@.len() - i,
    {
        if v[i].same_as(id) {
            assert(ids(v@)[i as int] == id@);
            return true;
        }
        i = i + 1;
    }
    false
}

/// Check that the generator produced one build file for each vendored package
/// and none for anything else.
pub fn check_build_files(source: &ThirdPartySource, generated: &Vec<VendoredCrate>) -> (r: Result<(), BuildFileError>)
    ensures
        r matches Err(BuildFileError::UnknownCrate(c)) ==> ids(generated@).contains(c@) && !source@.contains(c@),
        (forall|i: int| 0 <= i < generated@.len() ==> source@.contains(#[trigger] ids(generated@)[i])) <==> !(
        r matches Err(BuildFileError::UnknownCrate(_))),
        !(r matches Err(BuildFileError::UnknownCrate(_))) ==> match r {
            Ok(()) => missing_build_files(source@, ids(generated@)).len() == 0,
            Err(BuildFileError::MissingBuildFiles(v)) => ids(v@) == missing_build_files(source@, ids(generated@))
                && v@.len() > 0,
            _ => false,
        },
{
    let mut i: usize = 0;
    while i < generated.len()
        invariant
            i <= generated@.len(),
            forall|j: int| 0 <= j < i ==> source@.contains(#[trigger] ids(generated@)[j]),
        decreases generated@.len() - i,
    {
        let c = &generated[i];
        assert(ids(generated@)[i as int] == c@);
        if !source.contains(c) {
            return Err(BuildFileError::UnknownCrate(c.duplicate()));
        }
        i = i + 1;
    }
    let present = source.present_crates();
    let mut missing: Vec<VendoredCrate> = Vec::new();
    let mut k: usize = 0;
    while k < present.len()
        invariant
            k <= present@.len(),
            ids(present@) == source@,
            ids(missing@) == missing_build_files(source@.take(k as int), ids(generated@)),
        decreases present@.len() - k,
    {
        let c = &present[k];
        assert(source@[k as int] == c@);
        assert(source@.take(k + 1).drop_last() =~= source@.take(k as int));
        if !contains_crate(generated, c) {
            let ghost before = ids(missing@);
            missing.push(c.duplicate());
            assert(ids(missing@) =~= before.push(c@));
        }
        k = k + 1;
    }
    assert(source@.take(present@.len() as int) =~= source@);
    if missing.len() == 0 {
        Ok(())
    } else {
        Err(BuildFileError::MissingBuildFiles(missing))
    }
}

proof fn lemma_no_dependency_diagnostics(ds: Seq<ResolvedDependency>, present: Seq<(Seq<char>, Version)>)
    requires
        forall|i: int| 0 <= i < ds.len() ==> present.contains(#[trigger] ds[i].id()) && ds[i].is_local,
    ensures
        dependency_diagnostics(ds, present).len() == 0,
    decreases ds.len(),
{
    if ds.len() > 0 {
        lemma_no_dependency_diagnostics(ds.drop_last(), present);
        assert(present.contains(ds[ds.len() - 1].id()));
    }
}

proof fn lemma_no_unused_diagnostics(present: Seq<(Seq<char>, Version)>, ds: Seq<ResolvedDependency>)
    requires
        forall|k: int| 0 <= k < present.len() ==> requested(ds, (#[trigger] present[k].0, version_epoch(present[k].1))),
    ensures
        unused_diagnostics(present, ds).len() == 0,
    decreases present.len(),
{
    if present.len() > 0 {
        lemma_no_unused_diagnostics(present.drop_last(), ds);
        assert(requested(ds, (present[present.len() - 1].0, version_epoch(present[present.len() - 1].1))));
    }
}

/// When every resolved dependency is vendored and was resolved locally, no
/// two take one slot with different versions, and every vendored package's
/// slot is taken, reconciliation finds nothing to report and succeeds.
pub proof fn lemma_consistent_inputs_reconcile(ds: Seq<ResolvedDependency>, present: Seq<(Seq<char>, Version)>)
    requires
        forall|i: int| 0 <= i < ds.len() ==> present.contains(#[trigger] ds[i].id()) && ds[i].is_local,
        !has_collision(ds),
        forall|k: int| 0 <= k < present.len() ==> requested(ds, (#[trigger] present[k].0, version_epoch(present[k].1))),
    ensures
        diagnostics(ds, present).len() == 0,
{
    lemma_no_dependency_diagnostics(ds, present);
    lemma_no_unused_diagnostics(present, ds);
}

/// Two resolved dependencies with one name and epoch but different versions
/// are a collision, which reconciliation reports at once, whatever else it
/// would have found.
pub proof fn lemma_same_slot_collides(ds: Seq<ResolvedDependency>, i: int, j: int)
    requires
        0 <= i < ds.len(),
        0 <= j < ds.len(),
        ds[i].package_name@ == ds[j].package_name@,
        version_epoch(ds[i].version) == version_epoch(ds[j].version),
        ds[i].version != ds[j].version,
    ensures
        has_collision(ds),
{
    if i < j {
        assert(collides(ds, i, j));
    } else {
        assert(collides(ds, j, i));
    }
}

/// How many diagnostics of `kind` name the identity `id`.
pub open spec fn count_of(s: Seq<DiagnosticView>, kind: DiagnosticKind, id: (Seq<char>, Version)) -> nat
    decreases s.len(),
{
    if s.len() == 0 {
        0
    } else {
        count_of(s.drop_last(), kind, id) + if s.last().0 == kind && s.last().1 == id.0 && s.last().2 == id.1 {
            1nat
        } else {
            0nat
        }
    }
}

proof fn lemma_count_short(s: Seq<DiagnosticView>, kind: DiagnosticKind, id: (Seq<char>, Version))
    requires
        s.len() <= 1,
    ensures
        count_of(s, kind, id) == if s.len() == 1 && s[0].0 == kind && s[0].1 == id.0 && s[0].2 == id.1 {
            1nat
        } else {
            0nat
        },
{
    if s.len() == 1 {
        assert(s.drop_last() =~= Seq::<DiagnosticView>::empty());
        assert(count_of(s.drop_last(), kind, id) == 0);
    }
}

proof fn lemma_count_concat(a: Seq<DiagnosticView>, b: Seq<DiagnosticView>, kind: DiagnosticKind, id: (Seq<char>, Version))
    ensures
        count_of(a + b, kind, id) == count_of(a, kind, id) + count_of(b, kind, id),
    decreases b.len(),
{
    if b.len() == 0 {
        assert(a + b =~= a);
    } else {
        assert((a + b).drop_last() =~= a + b.drop_last());
        lemma_count_concat(a, b.drop_last(), kind, id);
    }
}

proof fn lemma_count_dependency_part(
    ds: Seq<ResolvedDependency>,
    present: Seq<(Seq<char>, Version)>,
    kind: DiagnosticKind,
    id: (Seq<char>, Version),
)
    ensures
        kind == DiagnosticKind::Unused ==> count_of(dependency_diagnostics(ds, present), kind, id) == 0,
        kind == DiagnosticKind::Missing && (forall|i: int| 0 <= i < ds.len() ==> #[trigger] ds[i].id() != id)
            ==> count_of(dependency_diagnostics(ds, present), kind, id) == 0,
    decreases ds.len(),
{
    if ds.len() > 0 {
        let prev = ds.drop_last();
        lemma_count_dependency_part(prev, present, kind, id);
        lemma_count_concat(dependency_diagnostics(prev, present), dependency_diagnostic(ds.last(), present), kind, id);
        let one = dependency_diagnostic(ds.last(), present);
        lemma_count_short(one, kind, id);
        if kind == DiagnosticKind::Missing && (forall|i: int| 0 <= i < ds.len() ==> #[trigger] ds[i].id() != id) {
            assert(ds[ds.len() - 1].id() != id);
            assert forall|i: int| 0 <= i < prev.len() implies #[trigger] prev[i].id() != id by {
                assert(prev[i] == ds[i]);
            }
        }
    }
}

proof fn lemma_count_unused_part(
    present: Seq<(Seq<char>, Version)>,
    ds: Seq<ResolvedDependency>,
    id: (Seq<char>, Version),
)
    requires
        present.no_duplicates(),
        forall|i: int| 0 <= i < ds.len() ==> #[trigger] ds[i].package_name@ != id.0,
    ensures
        count_of(unused_diagnostics(present, ds), DiagnosticKind::Unused, id) == if present.contains(id) {
            1nat
        } else {
            0nat
        },
        count_of(unused_diagnostics(present, ds), DiagnosticKind::Missing, id) == 0,
    decreases present.len(),
{
    if present.len() > 0 {
        let prev = present.drop_last();
        assert(prev.no_duplicates());
        lemma_count_unused_part(prev, ds, id);
        let one = unused_diagnostic(present.last(), ds);
        lemma_count_concat(unused_diagnostics(prev, ds), one, DiagnosticKind::Unused, id);
        lemma_count_concat(unused_diagnostics(prev, ds), one, DiagnosticKind::Missing, id);
        lemma_count_short(one, DiagnosticKind::Unused, id);
        lemma_count_short(one, DiagnosticKind::Missing, id);
        if present.last() == id {
            assert(!requested(ds, (id.0, version_epoch(id.1))));
            if prev.contains(id) {
                let k = choose|k: int| 0 <= k < prev.len() && prev[k] == id;
                assert(present[k] == present[present.len() - 1]);
            }
        } else {
            if present.contains(id) {
                let k = choose|k: int| 0 <= k < present.len() && present[k] == id;
                assert(prev[k] == id);
            }
            if prev.contains(id) {
                let k = choose|k: int| 0 <= k < prev.len() && prev[k] == id;
                assert(present[k] == id);
            }
        }
    }
}

/// A vendored identity whose name no resolved dependency carries is reported
/// as unused exactly once.
pub proof fn lemma_unreferenced_is_unused(
    ds: Seq<ResolvedDependency>,
    present: Seq<(Seq<char>, Version)>,
    id: (Seq<char>, Version),
)
    requires
        present.no_duplicates(),
        present.contains(id),
        forall|i: int| 0 <= i < ds.len() ==> #[trigger] ds[i].package_name@ != id.0,
    ensures
        count_of(diagnostics(ds, present), DiagnosticKind::Unused, id) == 1,
{
    lemma_count_dependency_part(ds, present, DiagnosticKind::Unused, id);
    lemma_count_unused_part(present, ds, id);
    lemma_count_concat(dependency_diagnostics(ds, present), unused_diagnostics(present, ds), DiagnosticKind::Unused, id);
}

proof fn lemma_count_missing(
    ds: Seq<ResolvedDependency>,
    present: Seq<(Seq<char>, Version)>,
    at: int,
)
    requires
        0 <= at,
        forall|j: int| 0 <= j < ds.len() && j != at ==> #[trigger] ds[j].id() != ds[at].id(),
        at < ds.len() ==> !present.contains(ds[at].id()),
    ensures
        at < ds.len() ==> count_of(dependency_diagnostics(ds, present), DiagnosticKind::Missing, ds[at].id()) == 1,
        at < ds.len() ==> dependency_diagnostics(ds, present).contains(
            (DiagnosticKind::Missing, ds[at].package_name@, ds[at].version, texts(ds[at].dependency_path@)),
        ),
    decreases ds.len(),
{
    if at < ds.len() {
        let id = ds[at].id();
        let prev = ds.drop_last();
        let one = dependency_diagnostic(ds.last(), present);
        lemma_count_concat(dependency_diagnostics(prev, present), one, DiagnosticKind::Missing, id);
        lemma_count_short(one, DiagnosticKind::Missing, id);
        if at == ds.len() - 1 {
            assert forall|i: int| 0 <= i < prev.len() implies #[trigger] prev[i].id() != id by {
                assert(prev[i] == ds[i]);
            }
            lemma_count_dependency_part(prev, present, DiagnosticKind::Missing, id);
            let whole = dependency_diagnostics(ds, present);
            assert(whole[whole.len() - 1] == one[0]);
        } else {
            assert forall|j: int| 0 <= j < prev.len() && j != at implies #[trigger] prev[j].id() != prev[at].id() by {
                assert(prev[j] == ds[j]);
            }
            assert(prev[at] == ds[at]);
            lemma_count_missing(prev, present, at);
            assert(ds.last().id() != id);
            let part = dependency_diagnostics(prev, present);
            let k = choose|k: int| 0 <= k < part.len() && part[k] == (DiagnosticKind::Missing, ds[at].package_name@, ds[at].version, texts(ds[at].dependency_path@));
            assert((part + one)[k] == part[k]);
        }
    }
}

/// A resolved dependency, listed once, whose identity is not vendored is
/// reported as missing exactly once, with its requirement chain.
pub proof fn lemma_unvendored_is_missing(ds: Seq<ResolvedDependency>, present: Seq<(Seq<char>, Version)>, at: int)
    requires
        0 <= at < ds.len(),
        forall|j: int| 0 <= j < ds.len() && j != at ==> #[trigger] ds[j].id() != ds[at].id(),
        !present.contains(ds[at].id()),
    ensures
        count_of(diagnostics(ds, present), DiagnosticKind::Missing, ds[at].id()) == 1,
        diagnostics(ds, present).contains(
            (DiagnosticKind::Missing, ds[at].package_name@, ds[at].version, texts(ds[at].dependency_path@)),
        ),
{
    let id = ds[at].id();
    lemma_count_missing(ds, present, at);
    lemma_count_unused_missing(present, ds, id);
    lemma_count_concat(dependency_diagnostics(ds, present), unused_diagnostics(present, ds), DiagnosticKind::Missing, id);
    let part = dependency_diagnostics(ds, present);
    let k = choose|k: int| 0 <= k < part.len() && part[k] == (DiagnosticKind::Missing, ds[at].package_name@, ds[at].version, texts(ds[at].dependency_path@));
    assert(diagnostics(ds, present)[k] == part[k]);
}

proof fn lemma_count_unused_missing(present: Seq<(Seq<char>, Version)>, ds: Seq<ResolvedDependency>, id: (Seq<char>, Version))
    ensures
        count_of(unused_diagnostics(present, ds), DiagnosticKind::Missing, id) == 0,
    decreases present.len(),
{
    if present.len() > 0 {
        let prev = present.drop_last();
        lemma_count_unused_missing(prev, ds, id);
        let one = unused_diagnostic(present.last(), ds);
        lemma_count_concat(unused_diagnostics(prev, ds), one, DiagnosticKind::Missing, id);
        lemma_count_short(one, DiagnosticKind::Missing, id);
    }
}

proof fn lemma_missing_prefix(present: Seq<(Seq<char>, Version)>, generated: Seq<(Seq<char>, Version)>, x: (Seq<char>, Version))
    requires
        present.no_duplicates(),
        forall|p: (Seq<char>, Version)| #[trigger] generated.contains(p) ==> p != x,
        forall|k: int| 0 <= k < present.len() && present[k] != x ==> generated.contains(#[trigger] present[k]),
    ensures
        missing_build_files(present, generated) == if present.contains(x) {
            seq![x]
        } else {
            Seq::empty()
        },
    decreases present.len(),
{
    if present.len() > 0 {
        let prev = present.drop_last();
        assert(prev.no_duplicates());
        assert forall|k: int| 0 <= k < prev.len() && prev[k] != x implies generated.contains(#[trigger] prev[k]) by {
            assert(prev[k] == present[k]);
        }
        lemma_missing_prefix(prev, generated, x);
        let last = present.last();
        if last == x {
            if prev.contains(x) {
                let k = choose|k: int| 0 <= k < prev.len() && prev[k] == x;
                assert(present[k] == present[present.len() - 1]);
            }
            assert(Seq::<(Seq<char>, Version)>::empty().push(x) =~= seq![x]);
        } else {
            assert(generated.contains(present[present.len() - 1]));
            if present.contains(x) {
                let k = choose|k: int| 0 <= k < present.len() && present[k] == x;
                assert(prev[k] == x);
            }
            if prev.contains(x) {
                let k = choose|k: int| 0 <= k < prev.len() && prev[k] == x;
                assert(present[k] == x);
            }
        }
    }
}

/// Where the generator emits a build file for every vendored identity but
/// one, and for nothing else, the build-file check fails naming exactly that
/// identity.
pub proof fn lemma_one_build_file_short(present: Seq<(Seq<char>, Version)>, generated: Seq<(Seq<char>, Version)>, x: (Seq<char>, Version))
    requires
        present.no_duplicates(),
        present.contains(x),
        forall|p: (Seq<char>, Version)| generated.contains(p) <==> present.contains(p) && p != x,
    ensures
        forall|i: int| 0 <= i < generated.len() ==> present.contains(#[trigger] generated[i]),
        missing_build_files(present, generated) == seq![x],
{
    assert forall|k: int| 0 <= k < present.len() && present[k] != x implies generated.contains(#[trigger] present[k]) by {
        assert(present.contains(present[k]));
    }
    assert forall|i: int| 0 <= i < generated.len() implies present.contains(#[trigger] generated[i]) by {
        assert(generated.contains(generated[i]));
    }
    lemma_missing_prefix(present, generated, x);
}

} // verus!
