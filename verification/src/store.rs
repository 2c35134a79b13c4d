//! The store of installed packages: one directory for each name and
//! version, never written twice.

use crate::generator::{file_paths, listed_files, DirectoryEntry, ManifestSource, MANIFEST_FILE};
use crate::path::{join, joined};
use crate::render::{plan_copies, planned_copies, FileCopy, FileCopyView};
use crate::text::optional_text;
use vstd::prelude::*;

verus! {

/// The name of the directory that holds what this program keeps.
pub const APPLICATION_DIRECTORY: &'static str = "demiurgos";

/// The name of the directory that holds the store.
pub const STORE_DIRECTORY: &'static str = "generators";

/// The root of the store on a machine that keeps local data in
/// `data_directory`.
pub open spec fn store_root_in(data_directory: Seq<char>) -> Seq<char> {
    joined(joined(data_directory, APPLICATION_DIRECTORY@), STORE_DIRECTORY@)
}

/// The root of the store on a machine that keeps local data in
/// `data_directory`.
pub fn store_root(data_directory: &str) -> (root: String)
    ensures
        root@ == store_root_in(data_directory@),
{
    let application = join(data_directory, APPLICATION_DIRECTORY);
    join(application.as_str(), STORE_DIRECTORY)
}

/// The name and the version under which a package is installed.
#[derive(Debug, PartialEq, Eq)]
pub struct InstallKey {
    pub name: String,
    pub version: String,
}

impl View for InstallKey {
    type V = (Seq<char>, Seq<char>);

    open spec fn view(&self) -> (Seq<char>, Seq<char>) {
        (self.name@, self.version@)
    }
}

/// The store: where it is, and what is installed in it.
#[derive(Debug, PartialEq, Eq)]
pub struct Store {
    pub root: String,
    pub installed: Vec<InstallKey>,
}

/// The mathematical value of a [`Store`].
pub struct StoreView {
    pub root: Seq<char>,
    pub installed: Seq<(Seq<char>, Seq<char>)>,
}

impl View for Store {
    type V = StoreView;

    open spec fn view(&self) -> StoreView {
        StoreView {
            root: self.root@,
            installed: self.installed@.map_values(|key: InstallKey| key@),
        }
    }
}

impl StoreView {
    /// A store holds each package once.
    pub open spec fn well_formed(self) -> bool {
        self.installed.no_duplicates()
    }
}

/// A package that was staged for installing.
#[derive(Debug, PartialEq, Eq)]
pub struct StagedPackage {
    /// The directory that the package was staged in.
    pub path: String,
    pub manifest: ManifestSource,
    /// Everything below `path`, at any depth.
    pub files: Vec<DirectoryEntry>,
}

/// Why a staged package cannot be installed.
#[derive(Debug, Clone, Copy, PartialEq, Eq, Structural)]
pub enum InstallErrorKind {
    MissingManifest,
    InvalidManifest,
    /// A file of the staged package does not lie below its directory.
    OutsidePackage,
}

/// A staged package that cannot be installed: the cause, and the path at
/// fault.
#[derive(Debug, PartialEq, Eq)]
pub struct InstallError {
    pub kind: InstallErrorKind,
    pub path: String,
}

/// The mathematical value of an [`InstallError`].
pub struct InstallFailure {
    pub kind: InstallErrorKind,
    pub path: Seq<char>,
}

impl View for InstallError {
    type V = InstallFailure;

    open spec fn view(&self) -> InstallFailure {
        InstallFailure { kind: self.kind, path: self.path@ }
    }
}

/// What installing a package does: the directory of the package in the
/// store, and the files to copy there. Nothing is copied for a package
/// that is installed already.
#[derive(Debug, PartialEq, Eq)]
pub struct Installation {
    pub path: String,
    pub already_installed: bool,
    pub copies: Vec<FileCopy>,
}

/// The mathematical value of an [`Installation`].
pub struct InstallationView {
    pub path: Seq<char>,
    pub already_installed: bool,
    pub copies: Seq<FileCopyView>,
}

impl View for Installation {
    type V = InstallationView;

    open spec fn view(&self) -> InstallationView {
        InstallationView {
            path: self.path@,
            already_installed: self.already_installed,
            copies: self.copies@.map_values(|copy: FileCopy| copy@),
        }
    }
}

/// The directory of the package `key` in the store at `root`.
pub open spec fn install_path(root: Seq<char>, key: (Seq<char>, Seq<char>)) -> Seq<char> {
    joined(joined(root, key.0), key.1)
}

/// The name and version that a staged package is installed under, or why
/// it cannot be installed.
pub open spec fn staged_key(path: Seq<char>, manifest: ManifestSource) -> Result<
    (Seq<char>, Seq<char>),
    InstallFailure,
> {
    let manifest_path = joined(path, MANIFEST_FILE@);
    match manifest {
        ManifestSource::Missing => Err(
            InstallFailure { kind: InstallErrorKind::MissingManifest, path: manifest_path },
        ),
        ManifestSource::Invalid => Err(
            InstallFailure { kind: InstallErrorKind::InvalidManifest, path: manifest_path },
        ),
        ManifestSource::Parsed(manifest) => {
            if manifest@.identifies_package() {
                Ok(manifest@.install_key())
            } else {
                Err(InstallFailure { kind: InstallErrorKind::InvalidManifest, path: manifest_path })
            }
        },
    }
}

/// The store after a package was installed in it under `key`, and what
/// installing it does, where `files` are the files that were staged. A
/// package that the store holds already leaves the store as it is and
/// copies nothing; else the store holds the package too, and each staged
/// file is copied to the same place below the package's directory in the
/// store.
pub open spec fn installed_in(
    store: StoreView,
    key: (Seq<char>, Seq<char>),
    staged_path: Seq<char>,
    files: Seq<Seq<char>>,
) -> Result<(StoreView, InstallationView), InstallFailure> {
    let path = install_path(store.root, key);
    if store.installed.contains(key) {
        Ok((store, InstallationView { path, already_installed: true, copies: Seq::empty() }))
    } else {
        match planned_copies(files, staged_path, path) {
            Ok(copies) => Ok(
                (
                    StoreView { root: store.root, installed: store.installed.push(key) },
                    InstallationView { path, already_installed: false, copies },
                ),
            ),
            Err(failure) => Err(
                InstallFailure { kind: InstallErrorKind::OutsidePackage, path: failure.path },
            ),
        }
    }
}

/// The store after a staged package was installed in it, and what
/// installing it does, where `files` are the files that were staged: see
/// [`staged_key`] and [`installed_in`].
pub open spec fn installed(
    store: StoreView,
    staged_path: Seq<char>,
    manifest: ManifestSource,
    files: Seq<Seq<char>>,
) -> Result<(StoreView, InstallationView), InstallFailure> {
    match staged_key(staged_path, manifest) {
        Ok(key) => installed_in(store, key, staged_path, files),
        Err(failure) => Err(failure),
    }
}

/// Installing is idempotent: a package that was installed is found in
/// the store when it is installed again, and the second time the store
/// stays as it is, nothing is copied, and the same directory is reported.
pub proof fn lemma_install_idempotent(
    store: StoreView,
    staged_path: Seq<char>,
    manifest: ManifestSource,
    files: Seq<Seq<char>>,
)
    requires
        installed(store, staged_path, manifest, files) is Ok,
    ensures
        ({
            let once = installed(store, staged_path, manifest, files)->Ok_0;
            installed(once.0, staged_path, manifest, files) == Ok::<
                (StoreView, InstallationView),
                InstallFailure,
            >(
                (
                    once.0,
                    InstallationView {
                        path: once.1.path,
                        already_installed: true,
                        copies: Seq::empty(),
                    },
                ),
            )
        }),
{
    let key = staged_key(staged_path, manifest)->Ok_0;
    let once = installed(store, staged_path, manifest, files)->Ok_0;
    if !store.installed.contains(key) {
        assert(store.installed.push(key)[store.installed.len() as int] == key);
    }
    assert(once.0.installed.contains(key));
}

/// Installing keeps the store well formed: no package comes to stand in
/// it twice.
pub proof fn lemma_install_keeps_well_formed(
    store: StoreView,
    staged_path: Seq<char>,
    manifest: ManifestSource,
    files: Seq<Seq<char>>,
)
    requires
        store.well_formed(),
        installed(store, staged_path, manifest, files) is Ok,
    ensures
        installed(store, staged_path, manifest, files)->Ok_0.0.well_formed(),
{
    let key = staged_key(staged_path, manifest)->Ok_0;
    if !store.installed.contains(key) {
        let after = store.installed.push(key);
        assert forall|i: int, j: int|
            0 <= i < after.len() && 0 <= j < after.len() && i != j implies after[i] != after[j] by {
            if i < store.installed.len() && j < store.installed.len() {
                assert(store.installed[i] != store.installed[j]);
            } else if i < store.installed.len() {
                assert(store.installed.contains(store.installed[i]));
            } else {
                assert(store.installed.contains(store.installed[j]));
            }
        }
    }
}

/// Installing a package leaves what the store held before in it.
pub proof fn lemma_install_keeps(
    store: StoreView,
    staged_path: Seq<char>,
    manifest: ManifestSource,
    files: Seq<Seq<char>>,
    other: (Seq<char>, Seq<char>),
)
    requires
        installed(store, staged_path, manifest, files) is Ok,
        store.installed.contains(other),
    ensures
        installed(store, staged_path, manifest, files)->Ok_0.0.installed.contains(other),
{
    let key = staged_key(staged_path, manifest)->Ok_0;
    if !store.installed.contains(key) {
        let at = choose|i: int| 0 <= i < store.installed.len() && store.installed[i] == other;
        assert(store.installed.push(key)[at] == other);
    }
}

/// What is installed stands below the root of the store, under the name
/// and the version that the manifest gives, unless one of them starts at
/// the root itself.
pub proof fn lemma_install_path(
    store: StoreView,
    staged_path: Seq<char>,
    manifest: ManifestSource,
    files: Seq<Seq<char>>,
)
    requires
        installed(store, staged_path, manifest, files) is Ok,
    ensures
        manifest is Parsed,
        ({
            let key = manifest->Parsed_0@.install_key();
            let path = installed(store, staged_path, manifest, files)->Ok_0.1.path;
            &&& path == install_path(store.root, key)
            &&& key.0[0] != '/' && key.1[0] != '/' ==> store.root.is_prefix_of(path)
        }),
{
    let key = manifest->Parsed_0@.install_key();
    let path = install_path(store.root, key);
    if key.0[0] != '/' && key.1[0] != '/' {
        let package_root = joined(store.root, key.0);
        assert(store.root =~= package_root.subrange(0, store.root.len() as int));
        assert(package_root =~= path.subrange(0, package_root.len() as int));
        assert(store.root =~= path.subrange(0, store.root.len() as int));
    }
}

/// The generator that a render is asked for.
#[derive(Debug, PartialEq, Eq)]
pub enum Selection {
    /// A generator in the store, in the given directory.
    Installed(String),
    /// A generator in the given directory.
    Directory(String),
    /// A generator to fetch from the given source.
    Fetch(String),
}

/// The mathematical value of a [`Selection`].
pub enum SelectionView {
    Installed(Seq<char>),
    Directory(Seq<char>),
    Fetch(Seq<char>),
}

impl View for Selection {
    type V = SelectionView;

    open spec fn view(&self) -> SelectionView {
        match self {
            Selection::Installed(path) => SelectionView::Installed(path@),
            Selection::Directory(path) => SelectionView::Directory(path@),
            Selection::Fetch(uri) => SelectionView::Fetch(uri@),
        }
    }
}

/// The generator that is meant by what a render was given: the one
/// installed under a name and a version, where both are given; else the
/// one in a directory, where one is given; else the one at a source,
/// where one is given; else none.
pub open spec fn selected(
    root: Seq<char>,
    name: Option<Seq<char>>,
    version: Option<Seq<char>>,
    directory: Option<Seq<char>>,
    uri: Option<Seq<char>>,
) -> Option<SelectionView> {
    if name is Some && version is Some {
        Some(SelectionView::Installed(install_path(root, (name->0, version->0))))
    } else if directory is Some {
        Some(SelectionView::Directory(directory->0))
    } else if uri is Some {
        Some(SelectionView::Fetch(uri->0))
    } else {
        None
    }
}

/// Tells which generator is meant by what a render was given, for the
/// store at `root`.
pub fn select_generator(
    root: &str,
    name: Option<String>,
    version: Option<String>,
    directory: Option<String>,
    uri: Option<String>,
) -> (selection: Option<Selection>)
    ensures
        match selection {
            Some(chosen) => selected(
                root@,
                optional_text(name),
                optional_text(version),
                optional_text(directory),
                optional_text(uri),
            ) == Some(chosen@),
            None => selected(
                root@,
                optional_text(name),
                optional_text(version),
                optional_text(directory),
                optional_text(uri),
            ) is None,
        },
{
    match (name, version) {
        (Some(name), Some(version)) => {
            let package_root = join(root, name.as_str());
            return Some(Selection::Installed(join(package_root.as_str(), version.as_str())));
        },
        _ => {},
    }
    match directory {
        Some(path) => {
            return Some(Selection::Directory(path));
        },
        None => {},
    }
    match uri {
        Some(uri) => Some(Selection::Fetch(uri)),
        None => None,
    }
}

impl Store {
    /// Whether the store holds a package under `name` and `version`.
    pub fn holds(&self, name: &String, version: &String) -> (held: bool)
        ensures
            held == self@.installed.contains((name@, version@)),
    {
        let ghost keys = self@.installed;
        let mut i: usize = 0;
        while i < self.installed.len()
            invariant
                i <= self.installed.len(),
                keys == self@.installed,
                forall|j: int| 0 <= j < i ==> keys[j] != (name@, version@),
            decreases self.installed.len() - i,
        {
            if self.installed[i].name == *name && self.installed[i].version == *version {
                assert(keys[i as int] == (name@, version@));
                return true;
            }
            i += 1;
        }
        false
    }
}

/// Installs a staged package in the store: tells where it goes and what
/// is to be copied, and notes it in `store`.
pub fn install_template(store: &mut Store, staged: StagedPackage) -> (result: Result<
    Installation,
    InstallError,
>)
    ensures
        match result {
            Ok(done) => installed(
                old(store)@,
                staged.path@,
                staged.manifest,
                listed_files(staged.files@),
            ) == Ok::<(StoreView, InstallationView), InstallFailure>((final(store)@, done@)),
            Err(error) => installed(
                old(store)@,
                staged.path@,
                staged.manifest,
                listed_files(staged.files@),
            ) == Err::<(StoreView, InstallationView), InstallFailure>(error@) && final(store)@
                == old(store)@,
        },
        old(store)@.well_formed() ==> final(store)@.well_formed(),
{
    proof {
        let outcome = installed(store@, staged.path@, staged.manifest, listed_files(staged.files@));
        if store@.well_formed() && outcome is Ok {
            lemma_install_keeps_well_formed(
                store@,
                staged.path@,
                staged.manifest,
                listed_files(staged.files@),
            );
        }
    }
    let StagedPackage { path: staged_path, manifest, files } = staged;
    let manifest = match manifest {
        ManifestSource::Missing => {
            return Err(
                InstallError {
                    kind: InstallErrorKind::MissingManifest,
                    path: join(staged_path.as_str(), MANIFEST_FILE),
                },
            );
        },
        ManifestSource::Invalid => {
            return Err(
                InstallError {
                    kind: InstallErrorKind::InvalidManifest,
                    path: join(staged_path.as_str(), MANIFEST_FILE),
                },
            );
        },
        ManifestSource::Parsed(manifest) => manifest,
    };
    if !manifest.identifies_package() {
        return Err(
            InstallError {
                kind: InstallErrorKind::InvalidManifest,
                path: join(staged_path.as_str(), MANIFEST_FILE),
            },
        );
    }
    let package_root = join(store.root.as_str(), manifest.name.as_str());
    let path = join(package_root.as_str(), manifest.version.as_str());
    if store.holds(&manifest.name, &manifest.version) {
        let installation = Installation { path, already_installed: true, copies: Vec::new() };
        assert(installation@.copies =~= Seq::empty());
        return Ok(installation);
    }
    match plan_copies(&file_paths(&files), staged_path.as_str(), path.as_str()) {
        Ok(copies) => {
            let ghost before = store@.installed;
            let key = InstallKey { name: manifest.name, version: manifest.version };
            store.installed.push(key);
            assert(store@.installed =~= before.push(key@));
            Ok(Installation { path, already_installed: false, copies })
        },
        Err(error) => Err(
            InstallError { kind: InstallErrorKind::OutsidePackage, path: error.path },
        ),
    }
}

} // verus!
