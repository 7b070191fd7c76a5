//! Deriving a manifest from a resolved package: each dependency becomes a
//! download reference, a bundled library file, or nothing.
use vstd::prelude::*;
use crate::mod_json::{has_default_metadata, ModDependency, ModJson};

verus! {

/// The identifier of the mod loader itself, which is never bundled.
pub const LOADER_ID: &'static str = "scotland2";

/// Flags that the resolver attaches to a dependency.
#[derive(Clone, Debug, Default)]
pub struct AdditionalData {
    /// The dependency has no runtime artifact.
    pub header_only: Option<bool>,
    /// The dependency is linked into the mod's own binary.
    pub static_linking: Option<bool>,
    /// Explicit choice to bundle the dependency or not.
    pub include_in_package: Option<bool>,
    /// Where the dependency's own packaged mod can be downloaded.
    pub download_url: Option<String>,
}

/// A dependency that the package declares itself.
#[derive(Clone, Debug)]
pub struct DirectDependency {
    pub id: String,
    pub version_range: semver::VersionReq,
    pub additional_data: AdditionalData,
}

/// An entry of the fully resolved dependency set.
#[derive(Clone, Debug)]
pub struct ResolvedDependency {
    pub id: String,
    pub additional_data: AdditionalData,
}

/// A package with its declared and its resolved dependencies.
#[derive(Clone, Debug)]
pub struct ResolvedPackage {
    pub id: String,
    pub name: String,
    pub version: String,
    pub dependencies: Vec<DirectDependency>,
    pub resolved: Vec<ResolvedDependency>,
}

/// Whether an optional flag is set to `true`.
pub open spec fn is_set(flag: Option<bool>) -> bool {
    flag == Some(true)
}

/// The file name of the shared library built for `id`.
pub open spec fn so_name(id: Seq<char>) -> Seq<char> {
    "lib"@ + id + ".so"@
}

/// The position of the first of the first `n` declarations named `id`.
pub open spec fn first_declared_in(ds: Seq<DirectDependency>, id: Seq<char>, n: nat) -> Option<int>
    decreases n,
{
    if n == 0 {
        None
    } else {
        match first_declared_in(ds, id, (n - 1) as nat) {
            Some(k) => Some(k),
            None => if ds[n - 1].id@ == id {
                Some(n - 1)
            } else {
                None
            },
        }
    }
}

/// The position of the first declaration named `id`.
pub open spec fn first_declared(ds: Seq<DirectDependency>, id: Seq<char>) -> Option<int> {
    first_declared_in(ds, id, ds.len())
}

/// The explicit include flag of the declaration named `id`, if any.
pub open spec fn include_override(ds: Seq<DirectDependency>, id: Seq<char>) -> Option<bool> {
    match first_declared(ds, id) {
        Some(k) => ds[k].additional_data.include_in_package,
        None => None,
    }
}

/// Whether a resolved entry may go into the package: an explicit flag on its
/// declaration decides; otherwise it needs a download or a runtime artifact.
pub open spec fn is_bundlable(ds: Seq<DirectDependency>, r: ResolvedDependency) -> bool {
    match include_override(ds, r.id@) {
        Some(b) => b,
        None => r.additional_data.download_url is Some || !is_set(r.additional_data.header_only),
    }
}

/// The position of the first bundlable entry named `id` among the first `n`.
pub open spec fn first_bundlable_in(
    ds: Seq<DirectDependency>,
    rs: Seq<ResolvedDependency>,
    id: Seq<char>,
    n: nat,
) -> Option<int>
    decreases n,
{
    if n == 0 {
        None
    } else {
        match first_bundlable_in(ds, rs, id, (n - 1) as nat) {
            Some(k) => Some(k),
            None => if rs[n - 1].id@ == id && is_bundlable(ds, rs[n - 1]) {
                Some(n - 1)
            } else {
                None
            },
        }
    }
}

/// The position of the first bundlable entry named `id`.
pub open spec fn first_bundlable(
    ds: Seq<DirectDependency>,
    rs: Seq<ResolvedDependency>,
    id: Seq<char>,
) -> Option<int> {
    first_bundlable_in(ds, rs, id, rs.len())
}

/// The download reference that declaration `d` yields, if its bundlable
/// entry can be downloaded.
pub open spec fn remote_of(
    ds: Seq<DirectDependency>,
    rs: Seq<ResolvedDependency>,
    d: DirectDependency,
) -> Option<ModDependency> {
    match first_bundlable(ds, rs, d.id@) {
        Some(k) => match rs[k].additional_data.download_url {
            Some(url) => Some(
                ModDependency {
                    version_range: d.version_range,
                    id: d.id,
                    mod_link: Some(url),
                    required: None,
                },
            ),
            None => None,
        },
        None => None,
    }
}

/// The download references of the first `n` declarations, in order.
pub open spec fn remote_deps_in(
    ds: Seq<DirectDependency>,
    rs: Seq<ResolvedDependency>,
    n: nat,
) -> Seq<ModDependency>
    decreases n,
{
    if n == 0 {
        Seq::empty()
    } else {
        let prev = remote_deps_in(ds, rs, (n - 1) as nat);
        match remote_of(ds, rs, ds[n - 1]) {
            Some(m) => prev.push(m),
            None => prev,
        }
    }
}

/// The download references of a package.
pub open spec fn remote_deps(p: ResolvedPackage) -> Seq<ModDependency> {
    remote_deps_in(p.dependencies@, p.resolved@, p.dependencies@.len())
}

/// Whether some download reference names `id`.
pub open spec fn names_remote(remote: Seq<ModDependency>, id: Seq<char>) -> bool {
    exists|i: int| 0 <= i < remote.len() && #[trigger] remote[i].id@ == id
}

/// Whether a resolved entry ships as a library file of its own.
pub open spec fn is_library_entry(
    ds: Seq<DirectDependency>,
    remote: Seq<ModDependency>,
    r: ResolvedDependency,
) -> bool {
    let wanted = match include_override(ds, r.id@) {
        Some(b) => Some(b),
        None => r.additional_data.include_in_package,
    };
    &&& first_declared(ds, r.id@) is Some
    &&& !is_set(r.additional_data.header_only)
    &&& r.id@ != LOADER_ID@
    &&& !is_set(r.additional_data.static_linking)
    &&& wanted != Some(false)
    &&& !names_remote(remote, r.id@)
}

/// The library entries among the first `n` resolved entries, in order.
pub open spec fn library_entries_in(
    ds: Seq<DirectDependency>,
    rs: Seq<ResolvedDependency>,
    remote: Seq<ModDependency>,
    n: nat,
) -> Seq<ResolvedDependency>
    decreases n,
{
    if n == 0 {
        Seq::empty()
    } else {
        let prev = library_entries_in(ds, rs, remote, (n - 1) as nat);
        if is_library_entry(ds, remote, rs[n - 1]) {
            prev.push(rs[n - 1])
        } else {
            prev
        }
    }
}

/// The resolved entries of a package that ship as library files.
pub open spec fn library_entries(p: ResolvedPackage) -> Seq<ResolvedDependency> {
    library_entries_in(p.dependencies@, p.resolved@, remote_deps(p), p.resolved@.len())
}

/// The views of a sequence of strings.
pub open spec fn views(v: Seq<String>) -> Seq<Seq<char>> {
    v.map_values(|s: String| s@)
}

/// The library file names of a package.
pub open spec fn library_names(p: ResolvedPackage) -> Seq<Seq<char>> {
    library_entries(p).map_values(|r: ResolvedDependency| so_name(r.id@))
}

fn is_set_flag(flag: &Option<bool>) -> (r: bool)
    ensures
        r == is_set(*flag),
{
    match flag {
        Some(b) => *b,
        None => false,
    }
}

/// The shared-library file name for `id`.
pub fn library_file_name(id: &String) -> (r: String)
    ensures
        r@ == so_name(id@),
{
    let mut name = String::from_str("lib");
    name.append(id.as_str());
    name.append(".so");
    name
}

/// The position of the first declaration named `id`.
pub fn find_declaration(ds: &Vec<DirectDependency>, id: &String) -> (r: Option<usize>)
    ensures
        r matches Some(k) ==> k < ds@.len() && first_declared(ds@, id@) == Some(k as int),
        r is None ==> first_declared(ds@, id@) is None,
{
    let mut i: usize = 0;
    while i < ds.len()
        invariant
            i <= ds@.len(),
            first_declared_in(ds@, id@, i as nat) is None,
        decreases ds@.len() - i,
    {
        if ds[i].id == *id {
            assert(first_declared_in(ds@, id@, (i + 1) as nat) == Some(i as int));
            proof { lemma_first_declared_stays(ds@, id@, (i + 1) as nat, ds@.len()); }
            return Some(i);
        }
        i = i + 1;
    }
    None
}

proof fn lemma_first_declared_stays(ds: Seq<DirectDependency>, id: Seq<char>, m: nat, n: nat)
    requires
        m <= n,
        first_declared_in(ds, id, m) is Some,
    ensures
        first_declared_in(ds, id, n) == first_declared_in(ds, id, m),
    decreases n - m,
{
    if m < n {
        lemma_first_declared_stays(ds, id, m, (n - 1) as nat);
    }
}


proof fn lemma_first_bundlable_stays(
    ds: Seq<DirectDependency>,
    rs: Seq<ResolvedDependency>,
    id: Seq<char>,
    m: nat,
    n: nat,
)
    requires
        m <= n,
        first_bundlable_in(ds, rs, id, m) is Some,
    ensures
        first_bundlable_in(ds, rs, id, n) == first_bundlable_in(ds, rs, id, m),
    decreases n - m,
{
    if m < n {
        lemma_first_bundlable_stays(ds, rs, id, m, (n - 1) as nat);
    }
}

/// The explicit include flag of the declaration named `id`, if any.
fn find_include_override(ds: &Vec<DirectDependency>, id: &String) -> (r: Option<bool>)
    ensures
        r == include_override(ds@, id@),
{
    match find_declaration(ds, id) {
        Some(k) => ds[k].additional_data.include_in_package,
        None => None,
    }
}

/// Whether the resolved entry `r` may go into the package.
pub fn bundlable(ds: &Vec<DirectDependency>, r: &ResolvedDependency) -> (b: bool)
    ensures
        b == is_bundlable(ds@, *r),
{
    match find_include_override(ds, &r.id) {
        Some(b) => b,
        None => r.additional_data.download_url.is_some() || !is_set_flag(
            &r.additional_data.header_only,
        ),
    }
}

/// The position of the first bundlable resolved entry named `id`.
fn find_bundlable(ds: &Vec<DirectDependency>, rs: &Vec<ResolvedDependency>, id: &String) -> (r:
    Option<usize>)
    ensures
        r matches Some(k) ==> k < rs@.len() && first_bundlable(ds@, rs@, id@) == Some(k as int),
        r is None ==> first_bundlable(ds@, rs@, id@) is None,
{
    let mut i: usize = 0;
    while i < rs.len()
        invariant
            i <= rs@.len(),
            first_bundlable_in(ds@, rs@, id@, i as nat) is None,
        decreases rs@.len() - i,
    {
        if rs[i].id == *id && bundlable(ds, &rs[i]) {
            assert(first_bundlable_in(ds@, rs@, id@, (i + 1) as nat) == Some(i as int));
            proof { lemma_first_bundlable_stays(ds@, rs@, id@, (i + 1) as nat, rs@.len()); }
            return Some(i);
        }
        i = i + 1;
    }
    None
}

/// The download references of a package: each declaration whose bundlable
/// resolved entry has a download URL, in declaration order.
pub fn remote_dependencies(package: &ResolvedPackage) -> (r: Vec<ModDependency>)
    ensures
        r@ == remote_deps(*package),
{
    let ds = &package.dependencies;
    let rs = &package.resolved;
    let mut out: Vec<ModDependency> = Vec::new();
    let mut i: usize = 0;
    while i < ds.len()
        invariant
            ds == &package.dependencies,
            rs == &package.resolved,
            i <= ds@.len(),
            out@ == remote_deps_in(ds@, rs@, i as nat),
        decreases ds@.len() - i,
    {
        let d = &ds[i];
        match find_bundlable(ds, rs, &d.id) {
            Some(k) => match &rs[k].additional_data.download_url {
                Some(url) => {
                    out.push(
                        ModDependency {
                            version_range: d.version_range.clone(),
                            id: d.id.clone(),
                            mod_link: Some(url.clone()),
                            required: None,
                        },
                    );
                },
                None => {},
            },
            None => {},
        }
        i = i + 1;
    }
    out
}

/// Whether some download reference names `id`.
fn find_remote(remote: &Vec<ModDependency>, id: &String) -> (b: bool)
    ensures
        b == names_remote(remote@, id@),
{
    let mut i: usize = 0;
    while i < remote.len()
        invariant
            i <= remote@.len(),
            forall|j: int| 0 <= j < i ==> remote@[j].id@ != id@,
        decreases remote@.len() - i,
    {
        if remote[i].id == *id {
            return true;
        }
        i = i + 1;
    }
    false
}

/// Whether the resolved entry `r` ships as a library file of its own, given
/// the package's declarations and download references.
pub fn library_entry(
    ds: &Vec<DirectDependency>,
    remote: &Vec<ModDependency>,
    r: &ResolvedDependency,
) -> (b: bool)
    ensures
        b == is_library_entry(ds@, remote@, *r),
{
    let wanted = match find_include_override(ds, &r.id) {
        Some(b) => Some(b),
        None => r.additional_data.include_in_package,
    };
    let loader = String::from_str(LOADER_ID);
    find_declaration(ds, &r.id).is_some() && !is_set_flag(&r.additional_data.header_only)
        && r.id != loader && !is_set_flag(&r.additional_data.static_linking) && wanted != Some(
        false,
    ) && !find_remote(remote, &r.id)
}

/// The library file names of a package, given its download references.
fn library_files_of(package: &ResolvedPackage, remote: &Vec<ModDependency>) -> (r: Vec<String>)
    requires
        remote@ == remote_deps(*package),
    ensures
        views(r@) == library_names(*package),
{
    let ds = &package.dependencies;
    let rs = &package.resolved;
    let mut out: Vec<String> = Vec::new();
    let mut i: usize = 0;
    while i < rs.len()
        invariant
            ds == &package.dependencies,
            rs == &package.resolved,
            remote@ == remote_deps(*package),
            i <= rs@.len(),
            views(out@) == library_entries_in(ds@, rs@, remote@, i as nat).map_values(
                |r: ResolvedDependency| so_name(r.id@),
            ),
        decreases rs@.len() - i,
    {
        let r = &rs[i];
        let ghost prev = library_entries_in(ds@, rs@, remote@, i as nat);
        if library_entry(ds, remote, r) {
            let name = library_file_name(&r.id);
            let ghost before = out@;
            out.push(name);
            assert(views(out@) =~= views(before).push(name@));
            assert(views(out@) =~= prev.push(*r).map_values(
                |r: ResolvedDependency| so_name(r.id@),
            ));
        }
        i = i + 1;
    }
    out
}

/// The manifest of a package: its identity, its own library as the one mod
/// file, its download references and its bundled library files; every other
/// field as a new manifest has it.
pub fn derive_manifest(package: &ResolvedPackage) -> (m: ModJson)
    ensures
        has_default_metadata(m),
        m.name == package.name,
        m.id == package.id,
        m.version == package.version,
        views(m.mod_files@) == seq![so_name(package.id@)],
        m.dependencies@ == remote_deps(*package),
        views(m.library_files@) == library_names(*package),
{
    let dependencies = remote_dependencies(package);
    let library_files = library_files_of(package, &dependencies);
    let mut mod_files: Vec<String> = Vec::new();
    mod_files.push(library_file_name(&package.id));
    let m = ModJson {
        name: package.name.clone(),
        id: package.id.clone(),
        version: package.version.clone(),
        dependencies,
        mod_files,
        library_files,
        ..ModJson::default()
    };
    assert(views(m.mod_files@) =~= seq![so_name(package.id@)]);
    m
}

/// Distinct identifiers give distinct library file names.
pub proof fn lemma_so_name_injective(a: Seq<char>, b: Seq<char>)
    requires
        so_name(a) == so_name(b),
    ensures
        a == b,
{
    reveal_strlit("lib");
    reveal_strlit(".so");
    assert(so_name(a).len() == a.len() + 6);
    assert(so_name(b).len() == b.len() + 6);
    assert(a =~= so_name(a).subrange(3, 3 + a.len() as int));
    assert(b =~= so_name(b).subrange(3, 3 + b.len() as int));
}

proof fn lemma_library_entries_qualify(
    ds: Seq<DirectDependency>,
    rs: Seq<ResolvedDependency>,
    remote: Seq<ModDependency>,
    n: nat,
)
    requires
        n <= rs.len(),
    ensures
        forall|j: int|
            0 <= j < library_entries_in(ds, rs, remote, n).len() ==> is_library_entry(
                ds,
                remote,
                #[trigger] library_entries_in(ds, rs, remote, n)[j],
            ),
    decreases n,
{
    if n > 0 {
        lemma_library_entries_qualify(ds, rs, remote, (n - 1) as nat);
        let prev = library_entries_in(ds, rs, remote, (n - 1) as nat);
        let entries = library_entries_in(ds, rs, remote, n);
        assert forall|j: int| 0 <= j < entries.len() implies is_library_entry(
            ds,
            remote,
            #[trigger] entries[j],
        ) by {
            if j < prev.len() {
                assert(entries[j] == prev[j]);
            }
        }
    }
}

proof fn lemma_library_entries_complete(
    ds: Seq<DirectDependency>,
    rs: Seq<ResolvedDependency>,
    remote: Seq<ModDependency>,
    n: nat,
    j: int,
)
    requires
        n <= rs.len(),
        0 <= j < n,
        is_library_entry(ds, remote, rs[j]),
    ensures
        library_entries_in(ds, rs, remote, n).contains(rs[j]),
    decreases n,
{
    let entries = library_entries_in(ds, rs, remote, n);
    if j == n - 1 {
        assert(entries[entries.len() - 1] == rs[j]);
    } else {
        lemma_library_entries_complete(ds, rs, remote, (n - 1) as nat, j);
        let prev = library_entries_in(ds, rs, remote, (n - 1) as nat);
        let i = choose|i: int| 0 <= i < prev.len() && prev[i] == rs[j];
        assert(entries[i] == rs[j]);
    }
}

/// Every library file comes from a resolved entry that qualifies as a library.
proof fn lemma_library_name_origin(p: ResolvedPackage, name: Seq<char>)
    requires
        library_names(p).contains(name),
    ensures
        exists|j: int|
            0 <= j < library_entries(p).len() && so_name(#[trigger] library_entries(p)[j].id@)
                == name && is_library_entry(p.dependencies@, remote_deps(p), library_entries(p)[j]),
{
    lemma_library_entries_qualify(p.dependencies@, p.resolved@, remote_deps(p), p.resolved@.len());
    let i = choose|i: int| 0 <= i < library_names(p).len() && library_names(p)[i] == name;
    assert(so_name(library_entries(p)[i].id@) == name);
}

/// No dependency is both downloaded and bundled: the identifiers of the
/// download references and those of the bundled library entries are disjoint.
pub proof fn lemma_partition(p: ResolvedPackage)
    ensures
        forall|i: int, j: int|
            0 <= i < remote_deps(p).len() && 0 <= j < library_entries(p).len() ==> (
            #[trigger] remote_deps(p)[i]).id@ != (#[trigger] library_entries(p)[j]).id@,
{
    lemma_library_entries_qualify(p.dependencies@, p.resolved@, remote_deps(p), p.resolved@.len());
    assert forall|i: int, j: int|
        0 <= i < remote_deps(p).len() && 0 <= j < library_entries(p).len() implies (
        #[trigger] remote_deps(p)[i]).id@ != (#[trigger] library_entries(p)[j]).id@ by {
        let e = library_entries(p)[j];
        assert(is_library_entry(p.dependencies@, remote_deps(p), e));
        if remote_deps(p)[i].id@ == e.id@ {
            assert(names_remote(remote_deps(p), e.id@));
        }
    }
}

/// A declaration whose include flag is `false` never yields a library file.
pub proof fn lemma_excluded_never_bundled(p: ResolvedPackage, k: int)
    requires
        0 <= k < p.dependencies@.len(),
        first_declared(p.dependencies@, p.dependencies@[k].id@) == Some(k),
        p.dependencies@[k].additional_data.include_in_package == Some(false),
    ensures
        !library_names(p).contains(so_name(p.dependencies@[k].id@)),
{
    let id = p.dependencies@[k].id@;
    if library_names(p).contains(so_name(id)) {
        lemma_library_name_origin(p, so_name(id));
        let j = choose|j: int|
            0 <= j < library_entries(p).len() && so_name(#[trigger] library_entries(p)[j].id@)
                == so_name(id) && is_library_entry(
                p.dependencies@,
                remote_deps(p),
                library_entries(p)[j],
            );
        lemma_so_name_injective(library_entries(p)[j].id@, id);
    }
}

/// A declaration whose include flag is `true` yields the library file of a
/// resolved entry of the same name, unless that entry is downloaded instead,
/// is header-only or statically linked, or is the loader.
pub proof fn lemma_included_bundled(p: ResolvedPackage, k: int, j: int)
    requires
        0 <= k < p.dependencies@.len(),
        first_declared(p.dependencies@, p.dependencies@[k].id@) == Some(k),
        p.dependencies@[k].additional_data.include_in_package == Some(true),
        0 <= j < p.resolved@.len(),
        p.resolved@[j].id@ == p.dependencies@[k].id@,
        !is_set(p.resolved@[j].additional_data.header_only),
        !is_set(p.resolved@[j].additional_data.static_linking),
        p.dependencies@[k].id@ != LOADER_ID@,
        !names_remote(remote_deps(p), p.dependencies@[k].id@),
    ensures
        library_names(p).contains(so_name(p.dependencies@[k].id@)),
{
    let ds = p.dependencies@;
    let rs = p.resolved@;
    assert(is_library_entry(ds, remote_deps(p), rs[j]));
    lemma_library_entries_complete(ds, rs, remote_deps(p), rs.len(), j);
    let i = choose|i: int| 0 <= i < library_entries(p).len() && library_entries(p)[i] == rs[j];
    assert(library_names(p)[i] == so_name(ds[k].id@));
}

/// The loader is never bundled as a library file.
pub proof fn lemma_loader_never_bundled(p: ResolvedPackage)
    ensures
        !library_names(p).contains(so_name(LOADER_ID@)),
{
    if library_names(p).contains(so_name(LOADER_ID@)) {
        lemma_library_name_origin(p, so_name(LOADER_ID@));
        let j = choose|j: int|
            0 <= j < library_entries(p).len() && so_name(#[trigger] library_entries(p)[j].id@)
                == so_name(LOADER_ID@) && is_library_entry(
                p.dependencies@,
                remote_deps(p),
                library_entries(p)[j],
            );
        lemma_so_name_injective(library_entries(p)[j].id@, LOADER_ID@);
    }
}

} // verus!
