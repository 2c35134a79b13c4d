//! Generator packages: how the contents of a package directory become a
//! package.

use crate::json::{
    json_document, optional_document, read_json, read_yaml, yaml_document, Json, JsonValue,
};
use crate::manifest::{GeneratorYaml, GeneratorYamlView};
use crate::path::{
    join, joined, lemma_ordered_paths, lemma_path_order_unique, ordered_paths, path_order,
    sort_paths,
};
use crate::text::{optional_text, texts};
use vstd::prelude::*;
use vstd::relations::sorted_by;

verus! {

/// The name of the file that holds a package's manifest.
pub const MANIFEST_FILE: &'static str = "Generator.yaml";

/// The name of the file that holds a package's default values.
pub const VALUES_FILE: &'static str = "values.yaml";

/// The name of the file that holds a package's license.
pub const LICENSE_FILE: &'static str = "LICENSE";

/// The name of the file that holds a package's readme.
pub const README_FILE: &'static str = "README.md";

/// The name of the file that holds a package's schema.
pub const SCHEMA_FILE: &'static str = "schema.json";

/// The name of the directory that holds a package's static files.
pub const FILES_DIRECTORY: &'static str = "files";

/// The name of the directory that holds a package's templates.
pub const TEMPLATES_DIRECTORY: &'static str = "templates";

/// The name of the directory that holds the packages a package depends on.
pub const DEPENDENCIES_DIRECTORY: &'static str = "dependencies";

/// What stands where a package keeps its manifest.
#[derive(Debug, PartialEq, Eq)]
pub enum ManifestSource {
    /// There is no manifest file.
    Missing,
    /// The manifest file does not hold a manifest.
    Invalid,
    Parsed(GeneratorYaml),
}

/// What stands where a package keeps its default values.
#[derive(Debug, PartialEq, Eq)]
pub enum ValuesSource {
    /// There is no values file.
    Missing,
    /// The values file does not hold a document.
    Invalid,
    Parsed(Json),
}

/// An entry found while listing a directory.
#[derive(Debug, PartialEq, Eq)]
pub struct DirectoryEntry {
    pub path: String,
    pub is_file: bool,
}

/// The contents of a package directory, as read at one moment.
#[derive(Debug, PartialEq, Eq)]
pub struct PackageDirectory {
    /// Where the directory is.
    pub path: String,
    pub manifest: ManifestSource,
    pub license: Option<String>,
    pub readme: Option<String>,
    pub values: ValuesSource,
    pub schema: Option<Json>,
    /// Everything below `files/`, at any depth: `None` where there is no
    /// such directory.
    pub files: Option<Vec<DirectoryEntry>>,
    /// The entries of `templates/` itself: `None` where there is no such
    /// directory.
    pub templates: Option<Vec<DirectoryEntry>>,
    /// The contents of each directory in `dependencies/`: `None` where
    /// there is no such directory.
    pub dependencies: Option<Vec<PackageDirectory>>,
}

/// Why a directory is not a package.
#[derive(Debug, Clone, Copy, PartialEq, Eq, Structural)]
pub enum LoadErrorKind {
    MissingManifest,
    InvalidManifest,
    InvalidValues,
    MissingTemplates,
}

/// A directory that is not a package: the cause, and the path at fault.
#[derive(Debug, PartialEq, Eq)]
pub struct LoadError {
    pub kind: LoadErrorKind,
    pub path: String,
}

/// The mathematical value of a [`LoadError`].
pub struct LoadFailure {
    pub kind: LoadErrorKind,
    pub path: Seq<char>,
}

impl View for LoadError {
    type V = LoadFailure;

    open spec fn view(&self) -> LoadFailure {
        LoadFailure { kind: self.kind, path: self.path@ }
    }
}

/// A generator package: a directory's contents at the time it was loaded.
#[derive(Debug, PartialEq, Eq)]
pub struct Generator {
    pub base_path: String,
    pub generator_yaml: GeneratorYaml,
    pub license: Option<String>,
    pub readme: Option<String>,
    pub values: Json,
    pub schema: Option<Json>,
    /// The files below `files/` in ascending order: never an empty list.
    pub files: Option<Vec<String>>,
    /// The files in `templates/` in ascending order.
    pub templates: Vec<String>,
    pub dependencies: Option<Vec<Generator>>,
}

/// The mathematical value of a [`Generator`].
pub struct GeneratorView {
    pub base_path: Seq<char>,
    pub manifest: GeneratorYamlView,
    pub license: Option<Seq<char>>,
    pub readme: Option<Seq<char>>,
    pub values: JsonValue,
    pub schema: Option<JsonValue>,
    pub files: Option<Seq<Seq<char>>>,
    pub templates: Seq<Seq<char>>,
    pub dependencies: Option<Seq<GeneratorView>>,
}

/// The packages of `generators`, each by its view.
pub open spec fn generator_views(generators: Seq<Generator>) -> Seq<GeneratorView>
    decreases generators,
{
    Seq::new(
        generators.len(),
        |i: int|
            if 0 <= i < generators.len() {
                generators[i]@
            } else {
                arbitrary()
            },
    )
}

impl View for Generator {
    type V = GeneratorView;

    open spec fn view(&self) -> GeneratorView
        decreases self,
    {
        GeneratorView {
            base_path: self.base_path@,
            manifest: self.generator_yaml@,
            license: optional_text(self.license),
            readme: optional_text(self.readme),
            values: self.values@,
            schema: optional_document(self.schema),
            files: match self.files {
                Some(files) => Some(texts(files@)),
                None => None,
            },
            templates: texts(self.templates@),
            dependencies: match self.dependencies {
                Some(packages) => Some(generator_views(packages@)),
                None => None,
            },
        }
    }
}

impl GeneratorView {
    /// What holds of a package that was loaded: its manifest names the
    /// package and its version; its list of files, where it has one, is
    /// not empty and stands in ascending order, as its templates do; and
    /// the same holds of each package it depends on.
    pub open spec fn well_formed(self) -> bool
        decreases self,
    {
        &&& self.manifest.identifies_package()
        &&& match self.files {
            Some(files) => files.len() > 0 && sorted_by(files, path_order()),
            None => true,
        }
        &&& sorted_by(self.templates, path_order())
        &&& match self.dependencies {
            Some(packages) => forall|i: int|
                0 <= i < packages.len() ==> (#[trigger] packages[i]).well_formed(),
            None => true,
        }
    }
}

/// The paths of the entries of a listing that are files, in the order of
/// the listing. An entry without a path is passed over.
pub open spec fn listed_files(entries: Seq<DirectoryEntry>) -> Seq<Seq<char>>
    decreases entries.len(),
{
    if entries.len() == 0 {
        Seq::empty()
    } else {
        let before = listed_files(entries.drop_last());
        let entry = entries.last();
        if entry.is_file && entry.path@.len() > 0 {
            before.push(entry.path@)
        } else {
            before
        }
    }
}

/// The files that a package has from the listing of its `files/`
/// directory: none where the directory is absent or holds no file.
pub open spec fn loaded_files(files: Option<Vec<DirectoryEntry>>) -> Option<Seq<Seq<char>>> {
    match files {
        Some(entries) => {
            let found = listed_files(entries@);
            if found.len() == 0 {
                None
            } else {
                Some(ordered_paths(found))
            }
        },
        None => None,
    }
}

/// The packages among the outcomes of loading, in order.
pub open spec fn successes(outcomes: Seq<Result<GeneratorView, LoadFailure>>) -> Seq<
    GeneratorView,
>
    decreases outcomes.len(),
{
    if outcomes.len() == 0 {
        Seq::empty()
    } else {
        let before = successes(outcomes.drop_last());
        match outcomes.last() {
            Ok(package) => before.push(package),
            Err(_) => before,
        }
    }
}

/// The outcome of loading each of `directories`.
pub open spec fn loaded_each(directories: Seq<PackageDirectory>) -> Seq<
    Result<GeneratorView, LoadFailure>,
>
    decreases directories,
{
    Seq::new(
        directories.len(),
        |i: int|
            if 0 <= i < directories.len() {
                loaded(directories[i])
            } else {
                arbitrary()
            },
    )
}

/// The package that a directory holds, or why it holds none.
///
/// A directory is a package where it has a manifest that names the package
/// and its version, default values that are a document or no values file
/// at all, and a `templates/` directory. Of the directories under
/// `dependencies/`, those that are packages are kept.
pub open spec fn loaded(directory: PackageDirectory) -> Result<GeneratorView, LoadFailure>
    decreases directory,
{
    let at = directory.path@;
    match directory.manifest {
        ManifestSource::Missing => Err(
            LoadFailure { kind: LoadErrorKind::MissingManifest, path: joined(at, MANIFEST_FILE@) },
        ),
        ManifestSource::Invalid => Err(
            LoadFailure { kind: LoadErrorKind::InvalidManifest, path: joined(at, MANIFEST_FILE@) },
        ),
        ManifestSource::Parsed(manifest) => {
            if !manifest@.identifies_package() {
                Err(
                    LoadFailure {
                        kind: LoadErrorKind::InvalidManifest,
                        path: joined(at, MANIFEST_FILE@),
                    },
                )
            } else if directory.values is Invalid {
                Err(
                    LoadFailure {
                        kind: LoadErrorKind::InvalidValues,
                        path: joined(at, VALUES_FILE@),
                    },
                )
            } else if directory.templates is None {
                Err(
                    LoadFailure {
                        kind: LoadErrorKind::MissingTemplates,
                        path: joined(at, TEMPLATES_DIRECTORY@),
                    },
                )
            } else {
                Ok(
                    GeneratorView {
                        base_path: at,
                        manifest: manifest@,
                        license: optional_text(directory.license),
                        readme: optional_text(directory.readme),
                        values: match directory.values {
                            ValuesSource::Parsed(values) => values@,
                            _ => JsonValue::Object(Seq::empty()),
                        },
                        schema: optional_document(directory.schema),
                        files: loaded_files(directory.files),
                        templates: ordered_paths(listed_files(directory.templates->0@)),
                        dependencies: match directory.dependencies {
                            Some(directories) => Some(successes(loaded_each(directories@))),
                            None => None,
                        },
                    },
                )
            }
        },
    }
}

impl ValuesSource {
    /// What stands where a package keeps its default values, from the
    /// content of the values file. The content is `None` where there is
    /// no such file.
    pub fn from_text(content: Option<&str>) -> (source: ValuesSource)
        ensures
            match content {
                Some(text) => match yaml_document(text@) {
                    Some(document) => source matches ValuesSource::Parsed(values) && values@
                        == document,
                    None => source is Invalid,
                },
                None => source is Missing,
            },
    {
        match content {
            Some(text) => match read_yaml(text) {
                Some(values) => ValuesSource::Parsed(values),
                None => ValuesSource::Invalid,
            },
            None => ValuesSource::Missing,
        }
    }
}

/// The schema of a package, from the content of the schema file. The
/// content is `None` where there is no such file. A package has no
/// schema where there is no such file or it does not hold a document.
pub fn schema_from_text(content: Option<&str>) -> (schema: Option<Json>)
    ensures
        optional_document(schema) == match content {
            Some(text) => json_document(text@),
            None => None,
        },
{
    match content {
        Some(text) => read_json(text),
        None => None,
    }
}

/// The paths of the entries of a listing that are files.
pub fn file_paths(entries: &Vec<DirectoryEntry>) -> (paths: Vec<String>)
    ensures
        texts(paths@) == listed_files(entries@),
{
    let mut paths: Vec<String> = Vec::new();
    let mut i: usize = 0;
    while i < entries.len()
        invariant
            i <= entries.len(),
            texts(paths@) == listed_files(entries@.take(i as int)),
        decreases entries.len() - i,
    {
        assert(entries@.take(i + 1).drop_last() =~= entries@.take(i as int));
        if entries[i].is_file && !entries[i].path.as_str().is_empty() {
            let path = entries[i].path.clone();
            paths.push(path);
        }
        i += 1;
    }
    assert(entries@.take(i as int) =~= entries@);
    paths
}

/// The packages among `directories`, in order. A directory that is not a
/// package is passed over.
pub fn load_dependencies(directories: Vec<PackageDirectory>) -> (packages: Vec<Generator>)
    ensures
        generator_views(packages@) == successes(loaded_each(directories@)),
    decreases directories, 0nat,
{
    broadcast use vstd::std_specs::vec::group_vec_axioms;

    let ghost all = directories;
    let ghost outcomes = loaded_each(all@);
    let mut packages: Vec<Generator> = Vec::new();
    for directory in it: directories
        invariant
            it.seq() == all@,
            outcomes == loaded_each(all@),
            generator_views(packages@) == successes(outcomes.take(it.index() as int)),
    {
        let ghost done = it.index() as int;
        assert(outcomes.take(done + 1).drop_last() =~= outcomes.take(done));
        match Generator::from_directory(directory) {
            Ok(package) => {
                packages.push(package);
            },
            Err(_) => {},
        }
    }
    assert(outcomes.take(all@.len() as int) =~= outcomes);
    packages
}

impl Generator {
    /// Loads the package that `directory` holds.
    pub fn from_directory(directory: PackageDirectory) -> (result: Result<Generator, LoadError>)
        ensures
            match result {
                Ok(package) => loaded(directory) == Ok::<GeneratorView, LoadFailure>(package@)
                    && package@.well_formed(),
                Err(error) => loaded(directory) == Err::<GeneratorView, LoadFailure>(error@),
            },
        decreases directory, 1nat,
    {
        proof {
            if loaded(directory) is Ok {
                lemma_loaded_well_formed(directory);
            }
        }
        let PackageDirectory {
            path,
            manifest,
            license,
            readme,
            values,
            schema,
            files,
            templates,
            dependencies,
        } = directory;
        let manifest = match manifest {
            ManifestSource::Missing => {
                return Err(
                    LoadError {
                        kind: LoadErrorKind::MissingManifest,
                        path: join(path.as_str(), MANIFEST_FILE),
                    },
                );
            },
            ManifestSource::Invalid => {
                return Err(
                    LoadError {
                        kind: LoadErrorKind::InvalidManifest,
                        path: join(path.as_str(), MANIFEST_FILE),
                    },
                );
            },
            ManifestSource::Parsed(manifest) => manifest,
        };
        if !manifest.identifies_package() {
            return Err(
                LoadError {
                    kind: LoadErrorKind::InvalidManifest,
                    path: join(path.as_str(), MANIFEST_FILE),
                },
            );
        }
        let values = match values {
            ValuesSource::Missing => Json::empty_object(),
            ValuesSource::Invalid => {
                return Err(
                    LoadError {
                        kind: LoadErrorKind::InvalidValues,
                        path: join(path.as_str(), VALUES_FILE),
                    },
                );
            },
            ValuesSource::Parsed(values) => values,
        };
        let templates = match templates {
            None => {
                return Err(
                    LoadError {
                        kind: LoadErrorKind::MissingTemplates,
                        path: join(path.as_str(), TEMPLATES_DIRECTORY),
                    },
                );
            },
            Some(entries) => sort_paths(&file_paths(&entries)),
        };
        let files = match files {
            None => None,
            Some(entries) => {
                let found = file_paths(&entries);
                if found.len() == 0 {
                    None
                } else {
                    Some(sort_paths(&found))
                }
            },
        };
        let dependencies = match dependencies {
            None => None,
            Some(directories) => Some(load_dependencies(directories)),
        };
        Ok(
            Generator {
                base_path: path,
                generator_yaml: manifest,
                license,
                readme,
                values,
                schema,
                files,
                templates,
                dependencies,
            },
        )
    }
}

/// Each of the packages among the outcomes is the outcome at some
/// position.
pub proof fn lemma_successes(outcomes: Seq<Result<GeneratorView, LoadFailure>>, at: int)
    requires
        0 <= at < successes(outcomes).len(),
    ensures
        exists|from: int|
            0 <= from < outcomes.len() && #[trigger] outcomes[from] == Ok::<
                GeneratorView,
                LoadFailure,
            >(successes(outcomes)[at]),
    decreases outcomes.len(),
{
    let before = outcomes.drop_last();
    if at < successes(before).len() {
        lemma_successes(before, at);
        let from = choose|from: int|
            0 <= from < before.len() && #[trigger] before[from] == Ok::<GeneratorView, LoadFailure>(
                successes(before)[at],
            );
        assert(outcomes[from] == before[from]);
    } else {
        assert(outcomes[outcomes.len() - 1] == outcomes.last());
    }
}

/// What was loaded is well formed.
pub proof fn lemma_loaded_well_formed(directory: PackageDirectory)
    requires
        loaded(directory) is Ok,
    ensures
        loaded(directory)->Ok_0.well_formed(),
    decreases directory,
{
    let templates = listed_files(directory.templates->0@);
    lemma_ordered_paths(ordered_paths(templates), templates);
    match directory.files {
        Some(entries) => {
            let found = listed_files(entries@);
            lemma_ordered_paths(ordered_paths(found), found);
            vstd::seq_lib::to_multiset_len(found);
            vstd::seq_lib::to_multiset_len(ordered_paths(found));
        },
        None => {},
    }
    match directory.dependencies {
        Some(directories) => {
            let outcomes = loaded_each(directories@);
            let packages = successes(outcomes);
            assert forall|i: int| 0 <= i < packages.len() implies (#[trigger] packages[i])
                .well_formed() by {
                lemma_successes(outcomes, i);
                let from = choose|from: int|
                    0 <= from < outcomes.len() && #[trigger] outcomes[from] == Ok::<
                        GeneratorView,
                        LoadFailure,
                    >(packages[i]);
                lemma_loaded_well_formed(directories@[from]);
            }
        },
        None => {},
    }
}

/// A package has the manifest that its directory holds, and with it the
/// name and the version that the manifest gives.
pub proof fn lemma_loaded_keeps_manifest(directory: PackageDirectory)
    requires
        loaded(directory) is Ok,
    ensures
        directory.manifest is Parsed,
        loaded(directory)->Ok_0.manifest == directory.manifest->Parsed_0@,
        loaded(directory)->Ok_0.manifest.install_key() == (
            directory.manifest->Parsed_0.name@,
            directory.manifest->Parsed_0.version@,
        ),
{
}

/// Loading does not depend on the order in which a directory was
/// enumerated: two directories that are packages, and whose listings hold
/// the same files, load with the same files and the same templates, in
/// the same order.
pub proof fn lemma_load_deterministic(first: PackageDirectory, second: PackageDirectory)
    requires
        loaded(first) is Ok,
        loaded(second) is Ok,
        first.files is Some <==> second.files is Some,
        first.files is Some ==> listed_files(first.files->0@).to_multiset() == listed_files(
            second.files->0@,
        ).to_multiset(),
        listed_files(first.templates->0@).to_multiset() == listed_files(
            second.templates->0@,
        ).to_multiset(),
    ensures
        loaded(first)->Ok_0.files == loaded(second)->Ok_0.files,
        loaded(first)->Ok_0.templates == loaded(second)->Ok_0.templates,
{
    let first_templates = listed_files(first.templates->0@);
    let second_templates = listed_files(second.templates->0@);
    lemma_ordered_paths(ordered_paths(first_templates), first_templates);
    lemma_ordered_paths(ordered_paths(second_templates), second_templates);
    lemma_path_order_unique(
        ordered_paths(first_templates),
        first_templates,
        ordered_paths(second_templates),
        second_templates,
    );
    if first.files is Some {
        let first_files = listed_files(first.files->0@);
        let second_files = listed_files(second.files->0@);
        vstd::seq_lib::to_multiset_len(first_files);
        vstd::seq_lib::to_multiset_len(second_files);
        lemma_ordered_paths(ordered_paths(first_files), first_files);
        lemma_ordered_paths(ordered_paths(second_files), second_files);
        lemma_path_order_unique(
            ordered_paths(first_files),
            first_files,
            ordered_paths(second_files),
            second_files,
        );
    }
}

} // verus!
