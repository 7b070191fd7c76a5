//! The `mod.json` manifest of a packaged mod, in its newest schema generation.
use vstd::prelude::*;

verus! {

/// The declared form of semver's version requirement: the library carries
/// such values through unchanged and never looks inside them.
#[verifier::external_type_specification]
#[verifier::external_body]
pub struct ExVersionReq(semver::VersionReq);

/// Relies on the `Clone` that semver derives for `VersionReq`: the copy holds
/// the same comparators as the original.
pub assume_specification[ <semver::VersionReq as Clone>::clone ](v: &semver::VersionReq) -> (r:
    semver::VersionReq)
    ensures
        r == *v,
;

/// A semantic version: three numbers, with the pre-release and build
/// identifiers kept as the text that follows `-` and `+`.
#[derive(Clone, Debug)]
pub struct Version {
    pub major: u64,
    pub minor: u64,
    pub patch: u64,
    pub pre: String,
    pub build: String,
}

impl Version {
    /// The release version `major.minor.patch`.
    pub fn new(major: u64, minor: u64, patch: u64) -> (r: Version)
        ensures
            r.is_release(major, minor, patch),
    {
        Version { major, minor, patch, pre: String::new(), build: String::new() }
    }

    /// Whether this is the release version `major.minor.patch`.
    pub open spec fn is_release(self, major: u64, minor: u64, patch: u64) -> bool {
        &&& self.major == major
        &&& self.minor == minor
        &&& self.patch == patch
        &&& self.pre@ == Seq::<char>::empty()
        &&& self.build@ == Seq::<char>::empty()
    }
}

/// The loader family that a manifest names when nothing else is said.
pub const DEFAULT_MODLOADER: &'static str = "Scotland2";

/// The root object of `mod.json`.
#[derive(Clone, Debug)]
pub struct ModJson {
    /// The schema version this manifest was written for.
    pub schema_version: Version,
    /// Name of the mod.
    pub name: String,
    /// Identifier of the mod.
    pub id: String,
    /// The loader family that the mod needs.
    pub modloader: Option<String>,
    /// Author of the mod.
    pub author: String,
    /// Who ported the mod, if someone did.
    pub porter: Option<String>,
    /// The mod's own version.
    pub version: String,
    /// Identifier of the application the mod is for.
    pub package_id: Option<String>,
    /// Version of that application.
    pub package_version: Option<String>,
    /// Description of the mod.
    pub description: Option<String>,
    /// File name of the cover image.
    pub cover_image: Option<String>,
    /// Whether the mod is itself a library for other mods.
    pub is_library: Option<bool>,
    /// Mods to download when they are missing.
    pub dependencies: Vec<ModDependency>,
    /// Files for the early mods folder.
    pub mod_files: Vec<String>,
    /// Files for the late mods folder.
    pub late_mod_files: Vec<String>,
    /// Files for the libraries folder.
    pub library_files: Vec<String>,
    /// Files copied to a chosen place.
    pub file_copies: Vec<FileCopy>,
    /// Extensions whose files are copied to a folder on install.
    pub copy_extensions: Vec<CopyExtension>,
}

/// A mod that must be present, with where to fetch it.
#[derive(Clone, Debug, Default)]
pub struct ModDependency {
    /// Versions of the dependency that will do.
    pub version_range: semver::VersionReq,
    /// Identifier of the dependency.
    pub id: String,
    /// Where to download it; absent when it must already be installed.
    pub mod_link: Option<String>,
    /// Whether the dependency is required; absent means that it is.
    pub required: Option<bool>,
}

/// A file of the archive and the full path it is copied to.
#[derive(Clone, Debug, Default)]
pub struct FileCopy {
    pub name: String,
    pub destination: String,
}

/// Files ending in `extension` are copied to `destination` on install.
#[derive(Clone, Debug, Default)]
pub struct CopyExtension {
    pub extension: String,
    pub destination: String,
}

/// The fields that a manifest holds when no producer set them: the newest
/// schema version, the default loader, and nothing else.
pub open spec fn has_default_metadata(m: ModJson) -> bool {
    &&& m.schema_version.is_release(1, 1, 0)
    &&& m.modloader matches Some(l) && l@ == DEFAULT_MODLOADER@
    &&& m.author@ == Seq::<char>::empty()
    &&& m.porter is None
    &&& m.package_id is None
    &&& m.package_version is None
    &&& m.description is None
    &&& m.cover_image is None
    &&& m.is_library is None
    &&& m.late_mod_files@.len() == 0
    &&& m.file_copies@.len() == 0
    &&& m.copy_extensions@.len() == 0
}

impl Default for ModJson {
    fn default() -> (r: ModJson)
        ensures
            has_default_metadata(r),
            r.name@ == Seq::<char>::empty(),
            r.id@ == Seq::<char>::empty(),
            r.version@ == Seq::<char>::empty(),
            r.dependencies@.len() == 0,
            r.mod_files@.len() == 0,
            r.library_files@.len() == 0,
    {
        ModJson {
            schema_version: Version::new(1, 1, 0),
            name: String::new(),
            id: String::new(),
            modloader: Some(String::from_str(DEFAULT_MODLOADER)),
            author: String::new(),
            porter: None,
            version: String::new(),
            package_id: None,
            package_version: None,
            description: None,
            cover_image: None,
            is_library: None,
            dependencies: Vec::new(),
            mod_files: Vec::new(),
            late_mod_files: Vec::new(),
            library_files: Vec::new(),
            file_copies: Vec::new(),
            copy_extensions: Vec::new(),
        }
    }
}

} // verus!
