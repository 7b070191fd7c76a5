use qpm_qmod::derivation::{
    bundlable, derive_manifest, library_entry, library_file_name, remote_dependencies,
    AdditionalData, DirectDependency, ResolvedDependency, ResolvedPackage, LOADER_ID,
};
use qpm_qmod::mod_json::{ModDependency, ModJson};

fn flags(
    header_only: Option<bool>,
    static_linking: Option<bool>,
    include_in_package: Option<bool>,
    download_url: Option<&str>,
) -> AdditionalData {
    AdditionalData {
        header_only,
        static_linking,
        include_in_package,
        download_url: download_url.map(|s| s.to_string()),
    }
}

fn direct(id: &str, range: &str, data: AdditionalData) -> DirectDependency {
    DirectDependency {
        id: id.to_string(),
        version_range: semver::VersionReq::parse(range).unwrap(),
        additional_data: data,
    }
}

fn resolved(id: &str, data: AdditionalData) -> ResolvedDependency {
    ResolvedDependency { id: id.to_string(), additional_data: data }
}

fn package(direct: Vec<DirectDependency>, resolved: Vec<ResolvedDependency>) -> ResolvedPackage {
    ResolvedPackage {
        id: "mymod".to_string(),
        name: "MyMod".to_string(),
        version: "1.0.0".to_string(),
        dependencies: direct,
        resolved,
    }
}

fn ids(deps: &[ModDependency]) -> Vec<String> {
    deps.iter().map(|d| d.id.clone()).collect()
}

#[test]
fn scenario_no_dependencies() {
    let m = derive_manifest(&package(vec![], vec![]));
    assert!(m.dependencies.is_empty());
    assert!(m.library_files.is_empty());
    assert_eq!(m.mod_files, vec!["libmymod.so".to_string()]);
    assert_eq!(m.name, "MyMod");
    assert_eq!(m.id, "mymod");
    assert_eq!(m.version, "1.0.0");
    assert_eq!(m.modloader.as_deref(), Some("Scotland2"));
    assert_eq!((m.schema_version.major, m.schema_version.minor, m.schema_version.patch), (1, 1, 0));
}

#[test]
fn scenario_downloadable_dependency() {
    let p = package(
        vec![direct("libA", "^1.0.0", AdditionalData::default())],
        vec![resolved("libA", flags(None, None, None, Some("http://x/libA.qmod")))],
    );
    let m = derive_manifest(&p);
    assert_eq!(m.dependencies.len(), 1);
    let d = &m.dependencies[0];
    assert_eq!(d.id, "libA");
    assert_eq!(d.version_range.to_string(), "^1.0.0");
    assert_eq!(d.mod_link.as_deref(), Some("http://x/libA.qmod"));
    assert_eq!(d.required, None);
    assert!(m.library_files.is_empty());
}

#[test]
fn scenario_bundled_library() {
    let p = package(
        vec![direct("libB", "*", AdditionalData::default())],
        vec![resolved("libB", flags(Some(false), Some(false), None, None))],
    );
    let m = derive_manifest(&p);
    assert_eq!(m.library_files, vec!["liblibB.so".to_string()]);
    assert!(m.dependencies.is_empty());
}

#[test]
fn header_only_without_download_is_dropped() {
    let p = package(
        vec![direct("hdr", "*", AdditionalData::default())],
        vec![resolved("hdr", flags(Some(true), None, None, None))],
    );
    assert!(!bundlable(&p.dependencies, &p.resolved[0]));
    let m = derive_manifest(&p);
    assert!(m.dependencies.is_empty());
    assert!(m.library_files.is_empty());
}

#[test]
fn header_only_with_download_is_remote() {
    let p = package(
        vec![direct("hdr", "^2.1.0", AdditionalData::default())],
        vec![resolved("hdr", flags(Some(true), None, None, Some("http://x/hdr.qmod")))],
    );
    let m = derive_manifest(&p);
    assert_eq!(ids(&m.dependencies), vec!["hdr".to_string()]);
    assert!(m.library_files.is_empty());
}

#[test]
fn include_false_overrides_download_and_library() {
    let p = package(
        vec![direct("libC", "*", flags(None, None, Some(false), None))],
        vec![resolved("libC", flags(Some(false), None, None, Some("http://x/libC.qmod")))],
    );
    assert!(!bundlable(&p.dependencies, &p.resolved[0]));
    let m = derive_manifest(&p);
    assert!(m.dependencies.is_empty());
    assert!(m.library_files.is_empty());
}

#[test]
fn include_true_does_not_bundle_header_only() {
    let p = package(
        vec![direct("libD", "*", flags(None, None, Some(true), None))],
        vec![resolved("libD", flags(Some(true), None, None, None))],
    );
    assert!(bundlable(&p.dependencies, &p.resolved[0]));
    let m = derive_manifest(&p);
    assert!(m.dependencies.is_empty());
    assert!(m.library_files.is_empty());
}

#[test]
fn include_true_keeps_library() {
    let p = package(
        vec![direct("libE", "*", flags(None, None, Some(true), None))],
        vec![resolved("libE", flags(None, None, Some(false), None))],
    );
    let m = derive_manifest(&p);
    assert_eq!(m.library_files, vec!["liblibE.so".to_string()]);
}

#[test]
fn loader_is_never_bundled() {
    let p = package(
        vec![direct(LOADER_ID, "*", flags(Some(false), Some(false), Some(true), None))],
        vec![resolved(LOADER_ID, flags(Some(false), Some(false), Some(true), None))],
    );
    assert!(!library_entry(&p.dependencies, &vec![], &p.resolved[0]));
    let m = derive_manifest(&p);
    assert!(m.library_files.is_empty());
}

#[test]
fn static_and_transitive_entries_are_not_bundled() {
    let p = package(
        vec![direct("stat", "*", AdditionalData::default())],
        vec![
            resolved("stat", flags(None, Some(true), None, None)),
            resolved("transitive", AdditionalData::default()),
        ],
    );
    let m = derive_manifest(&p);
    assert!(m.library_files.is_empty());
    assert!(m.dependencies.is_empty());
}

#[test]
fn unresolved_direct_dependency_is_skipped() {
    let p = package(vec![direct("missing", "*", AdditionalData::default())], vec![]);
    let m = derive_manifest(&p);
    assert!(m.dependencies.is_empty());
    assert!(m.library_files.is_empty());
}

#[test]
fn remote_and_library_ids_are_disjoint() {
    let p = package(
        vec![
            direct("a", "^1.0.0", AdditionalData::default()),
            direct("b", "^2.0.0", AdditionalData::default()),
            direct("c", "*", AdditionalData::default()),
        ],
        vec![
            resolved("a", flags(None, None, None, Some("http://x/a.qmod"))),
            resolved("b", AdditionalData::default()),
            resolved("c", flags(None, None, Some(true), Some("http://x/c.qmod"))),
        ],
    );
    let m = derive_manifest(&p);
    assert_eq!(ids(&m.dependencies), vec!["a".to_string(), "c".to_string()]);
    assert_eq!(m.library_files, vec!["libb.so".to_string()]);
    for d in &m.dependencies {
        assert!(!m.library_files.contains(&format!("lib{}.so", d.id)));
    }
    assert_eq!(ids(&remote_dependencies(&p)), vec!["a".to_string(), "c".to_string()]);
}

#[test]
fn library_file_name_wraps_id() {
    assert_eq!(library_file_name(&"foo".to_string()), "libfoo.so");
    assert_eq!(library_file_name(&String::new()), "lib.so");
}

#[test]
fn default_manifest_fields() {
    let m = ModJson::default();
    assert_eq!((m.schema_version.major, m.schema_version.minor, m.schema_version.patch), (1, 1, 0));
    assert_eq!(m.schema_version.pre, "");
    assert_eq!(m.modloader.as_deref(), Some("Scotland2"));
    assert!(m.name.is_empty() && m.id.is_empty() && m.author.is_empty() && m.version.is_empty());
    assert!(m.porter.is_none() && m.package_id.is_none() && m.package_version.is_none());
    assert!(m.description.is_none() && m.cover_image.is_none() && m.is_library.is_none());
    assert!(m.dependencies.is_empty() && m.mod_files.is_empty() && m.late_mod_files.is_empty());
    assert!(m.library_files.is_empty() && m.file_copies.is_empty() && m.copy_extensions.is_empty());
}
