use demiurgos::generator::{
    file_paths, load_dependencies, schema_from_text, DirectoryEntry, Generator, LoadError,
    LoadErrorKind, ManifestSource, PackageDirectory, ValuesSource,
};
use demiurgos::json::Json;
use demiurgos::manifest::{Annotations, Dependency, GeneratorYaml, Maintainer};

fn manifest(name: &str, version: &str) -> GeneratorYaml {
    GeneratorYaml {
        api_version: "v1".to_string(),
        name: name.to_string(),
        version: version.to_string(),
        description: None,
        keywords: None,
        home: None,
        sources: None,
        dependencies: None,
        maintainers: None,
        icon: None,
        deprecated: None,
        annotations: None,
    }
}

fn file(path: &str) -> DirectoryEntry {
    DirectoryEntry { path: path.to_string(), is_file: true }
}

fn directory(path: &str) -> DirectoryEntry {
    DirectoryEntry { path: path.to_string(), is_file: false }
}

fn package(path: &str, name: &str) -> PackageDirectory {
    PackageDirectory {
        path: path.to_string(),
        manifest: ManifestSource::Parsed(manifest(name, "1.0.0")),
        license: None,
        readme: None,
        values: ValuesSource::Missing,
        schema: None,
        files: None,
        templates: Some(Vec::new()),
        dependencies: None,
    }
}

fn strings(texts: &[&str]) -> Vec<String> {
    texts.iter().map(|text| text.to_string()).collect()
}

#[test]
fn load_of_a_minimal_package() {
    let loaded = Generator::from_directory(package("/pkg", "site")).unwrap();
    assert_eq!(loaded.base_path, "/pkg");
    assert_eq!(loaded.generator_yaml, manifest("site", "1.0.0"));
    assert_eq!(loaded.license, None);
    assert_eq!(loaded.readme, None);
    assert_eq!(loaded.values, Json::Object(Vec::new()));
    assert_eq!(loaded.schema, None);
    assert_eq!(loaded.files, None);
    assert_eq!(loaded.templates, Vec::<String>::new());
    assert_eq!(loaded.dependencies.is_none(), true);
}

#[test]
fn load_keeps_name_and_version_of_the_manifest() {
    let mut written = manifest("blog", "2.4.1");
    written.description = Some("A blog".to_string());
    written.keywords = Some(strings(&["blog", "static"]));
    written.maintainers = Some(vec![Maintainer {
        name: "Ada".to_string(),
        email: Some("ada@example.org".to_string()),
        url: None,
    }]);
    written.dependencies = Some(vec![Dependency {
        name: "base".to_string(),
        source: "https://github.com/owner/base".to_string(),
        condition: None,
        tags: Some(strings(&["core"])),
        import_values: None,
        alias: Some("b".to_string()),
    }]);
    written.deprecated = Some(false);
    written.annotations = Some(Annotations { example: "demiurgos generate".to_string() });
    let mut given = package("/pkg", "blog");
    given.manifest = ManifestSource::Parsed(written.clone());
    let loaded = Generator::from_directory(given).unwrap();
    assert_eq!(loaded.generator_yaml.name, "blog");
    assert_eq!(loaded.generator_yaml.version, "2.4.1");
    assert_eq!(loaded.generator_yaml, written);
}

#[test]
fn load_without_manifest_fails() {
    let mut given = package("/pkg", "site");
    given.manifest = ManifestSource::Missing;
    assert_eq!(
        Generator::from_directory(given),
        Err(LoadError {
            kind: LoadErrorKind::MissingManifest,
            path: "/pkg/Generator.yaml".to_string()
        })
    );
}

#[test]
fn load_with_invalid_manifest_fails() {
    let mut given = package("/pkg", "site");
    given.manifest = ManifestSource::Invalid;
    assert_eq!(
        Generator::from_directory(given),
        Err(LoadError {
            kind: LoadErrorKind::InvalidManifest,
            path: "/pkg/Generator.yaml".to_string()
        })
    );
}

#[test]
fn load_with_empty_name_or_version_fails() {
    let mut unnamed = package("/pkg", "site");
    unnamed.manifest = ManifestSource::Parsed(manifest("", "1.0.0"));
    assert_eq!(
        Generator::from_directory(unnamed).unwrap_err().kind,
        LoadErrorKind::InvalidManifest
    );
    let mut unversioned = package("/pkg", "site");
    unversioned.manifest = ManifestSource::Parsed(manifest("site", ""));
    assert_eq!(
        Generator::from_directory(unversioned).unwrap_err().kind,
        LoadErrorKind::InvalidManifest
    );
}

#[test]
fn load_with_invalid_values_fails() {
    let mut given = package("/pkg", "site");
    given.values = ValuesSource::Invalid;
    assert_eq!(
        Generator::from_directory(given),
        Err(LoadError { kind: LoadErrorKind::InvalidValues, path: "/pkg/values.yaml".to_string() })
    );
}

#[test]
fn load_without_templates_directory_fails() {
    let mut given = package("/pkg", "site");
    given.templates = None;
    assert_eq!(
        Generator::from_directory(given),
        Err(LoadError { kind: LoadErrorKind::MissingTemplates, path: "/pkg/templates".to_string() })
    );
}

#[test]
fn load_reports_the_manifest_before_values_and_templates() {
    let mut given = package("/pkg", "site");
    given.manifest = ManifestSource::Missing;
    given.values = ValuesSource::Invalid;
    given.templates = None;
    assert_eq!(
        Generator::from_directory(given).unwrap_err().kind,
        LoadErrorKind::MissingManifest
    );
    let mut given = package("/pkg", "site");
    given.values = ValuesSource::Invalid;
    given.templates = None;
    assert_eq!(Generator::from_directory(given).unwrap_err().kind, LoadErrorKind::InvalidValues);
}

#[test]
fn load_without_values_file_has_an_empty_mapping() {
    let loaded = Generator::from_directory(package("/pkg", "site")).unwrap();
    assert_eq!(loaded.values, Json::Object(Vec::new()));
}

#[test]
fn load_keeps_values_schema_license_and_readme() {
    let values = Json::Object(vec![("title".to_string(), Json::Text("Hi".to_string()))]);
    let schema = Json::Object(vec![("type".to_string(), Json::Text("object".to_string()))]);
    let mut given = package("/pkg", "site");
    given.values = ValuesSource::Parsed(values.clone());
    given.schema = Some(schema.clone());
    given.license = Some("MIT".to_string());
    given.readme = Some("# Site".to_string());
    let loaded = Generator::from_directory(given).unwrap();
    assert_eq!(loaded.values, values);
    assert_eq!(loaded.schema, Some(schema));
    assert_eq!(loaded.license, Some("MIT".to_string()));
    assert_eq!(loaded.readme, Some("# Site".to_string()));
}

#[test]
fn load_orders_files_and_templates_by_path() {
    let mut given = package("/pkg", "site");
    given.files = Some(vec![
        file("/pkg/files/logo.png"),
        directory("/pkg/files/css"),
        file("/pkg/files/css/site.css"),
        file("/pkg/files/a.txt"),
    ]);
    given.templates = Some(vec![
        file("/pkg/templates/page.tpl"),
        file("/pkg/templates/_macros.tpl"),
        file("/pkg/templates/index.tpl"),
    ]);
    let loaded = Generator::from_directory(given).unwrap();
    assert_eq!(
        loaded.files,
        Some(strings(&["/pkg/files/a.txt", "/pkg/files/css/site.css", "/pkg/files/logo.png"]))
    );
    assert_eq!(
        loaded.templates,
        strings(&[
            "/pkg/templates/_macros.tpl",
            "/pkg/templates/index.tpl",
            "/pkg/templates/page.tpl"
        ])
    );
}

#[test]
fn load_is_the_same_however_the_directory_was_enumerated() {
    let mut one = package("/pkg", "site");
    one.files = Some(vec![file("/pkg/files/b"), file("/pkg/files/a"), file("/pkg/files/c")]);
    one.templates = Some(vec![file("/pkg/templates/y.tpl"), file("/pkg/templates/x.tpl")]);
    let mut other = package("/pkg", "site");
    other.files = Some(vec![file("/pkg/files/c"), file("/pkg/files/b"), file("/pkg/files/a")]);
    other.templates = Some(vec![file("/pkg/templates/x.tpl"), file("/pkg/templates/y.tpl")]);
    let first = Generator::from_directory(one).unwrap();
    let second = Generator::from_directory(other).unwrap();
    assert_eq!(first.files, second.files);
    assert_eq!(first.templates, second.templates);
    assert_eq!(first, second);
}

#[test]
fn load_of_an_absent_files_directory_has_no_files() {
    let loaded = Generator::from_directory(package("/pkg", "site")).unwrap();
    assert_eq!(loaded.files, None);
}

#[test]
fn load_of_an_empty_files_directory_has_no_files() {
    let mut given = package("/pkg", "site");
    given.files = Some(Vec::new());
    assert_eq!(Generator::from_directory(given).unwrap().files, None);
    let mut given = package("/pkg", "site");
    given.files = Some(vec![directory("/pkg/files/css"), directory("/pkg/files/img")]);
    assert_eq!(Generator::from_directory(given).unwrap().files, None);
}

#[test]
fn load_of_an_empty_templates_directory_has_no_templates() {
    let mut given = package("/pkg", "site");
    given.templates = Some(vec![directory("/pkg/templates/partials")]);
    assert_eq!(Generator::from_directory(given).unwrap().templates, Vec::<String>::new());
}

#[test]
fn load_without_dependencies_directory_has_none() {
    let loaded = Generator::from_directory(package("/pkg", "site")).unwrap();
    assert!(loaded.dependencies.is_none());
}

#[test]
fn load_passes_over_a_dependency_that_is_no_package() {
    let mut broken = package("/pkg/dependencies/broken", "broken");
    broken.manifest = ManifestSource::Invalid;
    let mut bare = package("/pkg/dependencies/bare", "bare");
    bare.templates = None;
    let mut given = package("/pkg", "site");
    given.dependencies = Some(vec![
        package("/pkg/dependencies/first", "first"),
        broken,
        bare,
        package("/pkg/dependencies/last", "last"),
    ]);
    let loaded = Generator::from_directory(given).unwrap();
    let dependencies = loaded.dependencies.unwrap();
    assert_eq!(dependencies.len(), 2);
    assert_eq!(dependencies[0].generator_yaml.name, "first");
    assert_eq!(dependencies[0].base_path, "/pkg/dependencies/first");
    assert_eq!(dependencies[1].generator_yaml.name, "last");
}

#[test]
fn load_of_dependencies_that_all_fail_has_an_empty_list() {
    let mut broken = package("/pkg/dependencies/broken", "broken");
    broken.manifest = ManifestSource::Missing;
    let mut given = package("/pkg", "site");
    given.dependencies = Some(vec![broken]);
    let loaded = Generator::from_directory(given).unwrap();
    assert_eq!(loaded.dependencies, Some(Vec::new()));
}

#[test]
fn load_of_dependencies_is_recursive() {
    let mut inner = package("/pkg/dependencies/mid/dependencies/leaf", "leaf");
    inner.templates = Some(vec![file("/pkg/dependencies/mid/dependencies/leaf/templates/l.tpl")]);
    let mut mid = package("/pkg/dependencies/mid", "mid");
    mid.dependencies = Some(vec![inner]);
    let mut given = package("/pkg", "site");
    given.dependencies = Some(vec![mid]);
    let loaded = Generator::from_directory(given).unwrap();
    let mid = &loaded.dependencies.as_ref().unwrap()[0];
    let leaf = &mid.dependencies.as_ref().unwrap()[0];
    assert_eq!(leaf.generator_yaml.name, "leaf");
    assert_eq!(
        leaf.templates,
        strings(&["/pkg/dependencies/mid/dependencies/leaf/templates/l.tpl"])
    );
}

#[test]
fn load_dependencies_keeps_the_packages_in_order() {
    let mut broken = package("/d/x", "x");
    broken.values = ValuesSource::Invalid;
    let loaded = load_dependencies(vec![package("/d/b", "b"), broken, package("/d/a", "a")]);
    let names: Vec<&str> = loaded.iter().map(|g| g.generator_yaml.name.as_str()).collect();
    assert_eq!(names, vec!["b", "a"]);
}

#[test]
fn file_paths_leaves_out_directories_and_empty_paths() {
    let entries = vec![file("/f/b"), directory("/f/d"), file(""), file("/f/a")];
    assert_eq!(file_paths(&entries), strings(&["/f/b", "/f/a"]));
}

#[test]
fn values_are_read_from_the_text_of_the_file() {
    assert_eq!(ValuesSource::from_text(None), ValuesSource::Missing);
    assert_eq!(
        ValuesSource::from_text(Some("title: Hi\ntags:\n  - a\n  - b\ncount: 3\ndraft: false\n")),
        ValuesSource::Parsed(Json::Object(vec![
            ("count".to_string(), Json::Number("3".to_string())),
            ("draft".to_string(), Json::Bool(false)),
            (
                "tags".to_string(),
                Json::Array(vec![Json::Text("a".to_string()), Json::Text("b".to_string())])
            ),
            ("title".to_string(), Json::Text("Hi".to_string())),
        ]))
    );
    assert_eq!(ValuesSource::from_text(Some("title: [unclosed")), ValuesSource::Invalid);
}

#[test]
fn schema_is_read_from_the_text_of_the_file() {
    assert_eq!(schema_from_text(None), None);
    assert_eq!(schema_from_text(Some("{ not json")), None);
    assert_eq!(
        schema_from_text(Some("{\"type\": \"object\", \"required\": [\"title\"], \"x\": null}")),
        Some(Json::Object(vec![
            ("required".to_string(), Json::Array(vec![Json::Text("title".to_string())])),
            ("type".to_string(), Json::Text("object".to_string())),
            ("x".to_string(), Json::Null),
        ]))
    );
}

#[test]
fn manifest_identifies_a_package_by_name_and_version() {
    assert!(manifest("site", "1.0.0").identifies_package());
    assert!(!manifest("", "1.0.0").identifies_package());
    assert!(!manifest("site", "").identifies_package());
    assert!(!manifest("", "").identifies_package());
}
