use demiurgos::generator::{DirectoryEntry, ManifestSource};
use demiurgos::render::FileCopy;
use demiurgos::manifest::GeneratorYaml;
use demiurgos::store::{
    install_template, select_generator, store_root, InstallError, InstallErrorKind, InstallKey,
    Installation, Selection, StagedPackage, Store,
};

fn manifest(name: &str, version: &str) -> GeneratorYaml {
    GeneratorYaml {
        api_version: "v1".to_string(),
        name: name.to_string(),
        version: version.to_string(),
        description: None,
        keywords: None,
        home: None,
        sources: None,
        dependencies: None,
        maintainers: None,
        icon: None,
        deprecated: None,
        annotations: None,
    }
}

fn staged(name: &str, version: &str) -> StagedPackage {
    StagedPackage {
        path: "/tmp/stage".to_string(),
        manifest: ManifestSource::Parsed(manifest(name, version)),
        files: vec![
            file("/tmp/stage/Generator.yaml"),
            directory("/tmp/stage/templates"),
            file("/tmp/stage/templates/page.tpl"),
            directory("/tmp/stage/files"),
            directory("/tmp/stage/files/img"),
            file("/tmp/stage/files/img/logo.png"),
        ],
    }
}

fn file(path: &str) -> DirectoryEntry {
    DirectoryEntry { path: path.to_string(), is_file: true }
}

fn directory(path: &str) -> DirectoryEntry {
    DirectoryEntry { path: path.to_string(), is_file: false }
}

fn empty_store() -> Store {
    Store { root: "/data/generators".to_string(), installed: Vec::new() }
}

fn key(name: &str, version: &str) -> InstallKey {
    InstallKey { name: name.to_string(), version: version.to_string() }
}

fn copy(source: &str, target: &str) -> FileCopy {
    FileCopy { source: source.to_string(), target: target.to_string() }
}

#[test]
fn install_copies_the_staged_tree_below_name_and_version() {
    let mut store = empty_store();
    let done = install_template(&mut store, staged("site", "1.2.0")).unwrap();
    assert_eq!(
        done,
        Installation {
            path: "/data/generators/site/1.2.0".to_string(),
            already_installed: false,
            copies: vec![
                copy("/tmp/stage/Generator.yaml", "/data/generators/site/1.2.0/Generator.yaml"),
                copy(
                    "/tmp/stage/templates/page.tpl",
                    "/data/generators/site/1.2.0/templates/page.tpl"
                ),
                copy(
                    "/tmp/stage/files/img/logo.png",
                    "/data/generators/site/1.2.0/files/img/logo.png"
                ),
            ],
        }
    );
    assert_eq!(store.installed, vec![key("site", "1.2.0")]);
    assert_eq!(store.root, "/data/generators");
}

#[test]
fn install_twice_is_the_same_as_once() {
    let mut once = empty_store();
    install_template(&mut once, staged("site", "1.2.0")).unwrap();
    let mut twice = empty_store();
    install_template(&mut twice, staged("site", "1.2.0")).unwrap();
    let again = install_template(&mut twice, staged("site", "1.2.0"));
    assert_eq!(
        again,
        Ok(Installation {
            path: "/data/generators/site/1.2.0".to_string(),
            already_installed: true,
            copies: Vec::new(),
        })
    );
    assert_eq!(twice, once);
}

#[test]
fn install_of_another_version_stands_beside_the_first() {
    let mut store = empty_store();
    install_template(&mut store, staged("site", "1.2.0")).unwrap();
    let done = install_template(&mut store, staged("site", "1.3.0")).unwrap();
    assert!(!done.already_installed);
    assert_eq!(done.path, "/data/generators/site/1.3.0");
    let done = install_template(&mut store, staged("blog", "1.2.0")).unwrap();
    assert!(!done.already_installed);
    assert_eq!(store.installed, vec![key("site", "1.2.0"), key("site", "1.3.0"), key("blog", "1.2.0")]);
    assert!(store.holds(&"site".to_string(), &"1.3.0".to_string()));
    assert!(!store.holds(&"blog".to_string(), &"1.3.0".to_string()));
}

#[test]
fn install_does_not_write_over_what_is_installed() {
    let mut store = Store { root: "/data".to_string(), installed: vec![key("site", "1.2.0")] };
    let mut other = staged("site", "1.2.0");
    other.files = vec![file("/tmp/stage/changed.txt")];
    let done = install_template(&mut store, other).unwrap();
    assert!(done.already_installed);
    assert_eq!(done.copies, Vec::new());
    assert_eq!(done.path, "/data/site/1.2.0");
    assert_eq!(store.installed, vec![key("site", "1.2.0")]);
}

#[test]
fn install_without_manifest_fails() {
    let mut store = empty_store();
    let mut given = staged("site", "1.2.0");
    given.manifest = ManifestSource::Missing;
    assert_eq!(
        install_template(&mut store, given),
        Err(InstallError {
            kind: InstallErrorKind::MissingManifest,
            path: "/tmp/stage/Generator.yaml".to_string()
        })
    );
    assert_eq!(store, empty_store());
}

#[test]
fn install_with_invalid_manifest_fails() {
    let mut store = empty_store();
    let mut given = staged("site", "1.2.0");
    given.manifest = ManifestSource::Invalid;
    assert_eq!(
        install_template(&mut store, given),
        Err(InstallError {
            kind: InstallErrorKind::InvalidManifest,
            path: "/tmp/stage/Generator.yaml".to_string()
        })
    );
    assert_eq!(
        install_template(&mut store, staged("", "1.2.0")).unwrap_err().kind,
        InstallErrorKind::InvalidManifest
    );
    assert_eq!(
        install_template(&mut store, staged("site", "")).unwrap_err().kind,
        InstallErrorKind::InvalidManifest
    );
    assert_eq!(store, empty_store());
}

#[test]
fn install_of_a_file_outside_the_staged_directory_fails() {
    let mut store = empty_store();
    let mut given = staged("site", "1.2.0");
    given.files.push(file("/etc/passwd"));
    assert_eq!(
        install_template(&mut store, given),
        Err(InstallError { kind: InstallErrorKind::OutsidePackage, path: "/etc/passwd".to_string() })
    );
    assert_eq!(store, empty_store());
}

#[test]
fn install_passes_over_a_directory_outside_the_staged_directory() {
    let mut store = empty_store();
    let mut given = staged("site", "1.2.0");
    given.files.push(directory("/etc"));
    let done = install_template(&mut store, given).unwrap();
    assert_eq!(done.copies.len(), 3);
}

#[test]
fn selection_prefers_name_and_version() {
    let some = |text: &str| Some(text.to_string());
    assert_eq!(
        select_generator("/data/generators", some("site"), some("1.2.0"), some("/pkg"), None),
        Some(Selection::Installed("/data/generators/site/1.2.0".to_string()))
    );
}

#[test]
fn selection_takes_a_directory_before_a_source() {
    let some = |text: &str| Some(text.to_string());
    assert_eq!(
        select_generator("/data", None, None, some("/pkg"), some("https://github.com/o/r")),
        Some(Selection::Directory("/pkg".to_string()))
    );
    assert_eq!(
        select_generator("/data", some("site"), None, some("/pkg"), None),
        Some(Selection::Directory("/pkg".to_string()))
    );
    assert_eq!(
        select_generator("/data", None, some("1.2.0"), None, some("https://github.com/o/r")),
        Some(Selection::Fetch("https://github.com/o/r".to_string()))
    );
}

#[test]
fn selection_of_nothing_is_none() {
    assert_eq!(select_generator("/data", None, None, None, None), None);
    assert_eq!(select_generator("/data", Some("site".to_string()), None, None, None), None);
    assert_eq!(select_generator("/data", None, Some("1.2.0".to_string()), None, None), None);
}

#[test]
fn store_holds_what_is_installed_in_it() {
    let store = Store {
        root: "/data".to_string(),
        installed: vec![key("site", "1.0.0"), key("blog", "2.0.0")],
    };
    assert!(store.holds(&"site".to_string(), &"1.0.0".to_string()));
    assert!(store.holds(&"blog".to_string(), &"2.0.0".to_string()));
    assert!(!store.holds(&"site".to_string(), &"2.0.0".to_string()));
    assert!(!store.holds(&"".to_string(), &"".to_string()));
    assert!(!empty_store().holds(&"site".to_string(), &"1.0.0".to_string()));
}

#[test]
fn store_lies_below_the_local_data_directory() {
    assert_eq!(store_root("/home/ada/.local/share"), "/home/ada/.local/share/demiurgos/generators");
    assert_eq!(store_root("/data/"), "/data/demiurgos/generators");
}
