use demiurgos::path::{
    chars_after_last, file_name_of, is_partial_template, join, relative_path, sort_paths,
};
use demiurgos::text::{chars_le, chars_of, ends_with, starts_with};

fn chars(text: &str) -> Vec<char> {
    text.chars().collect()
}

fn strings(texts: &[&str]) -> Vec<String> {
    texts.iter().map(|text| text.to_string()).collect()
}

#[test]
fn chars_of_gives_each_character() {
    assert_eq!(chars_of("a/é.tpl"), vec!['a', '/', 'é', '.', 't', 'p', 'l']);
    assert_eq!(chars_of(""), Vec::<char>::new());
}

#[test]
fn prefix_and_suffix_are_told() {
    assert!(starts_with("https://github.com/a/b", "https://github.com"));
    assert!(!starts_with("http://github.com/a/b", "https://github.com"));
    assert!(starts_with("abc", ""));
    assert!(!starts_with("ab", "abc"));
    assert!(ends_with("pack.tar.gz", ".tar.gz"));
    assert!(!ends_with("pack.tar.gz", ".zip"));
    assert!(ends_with(".zip", ".zip"));
    assert!(!ends_with("zip", ".zip"));
}

#[test]
fn order_is_lexicographic_by_code_point() {
    assert!(chars_le(&chars(""), &chars("")));
    assert!(chars_le(&chars(""), &chars("a")));
    assert!(!chars_le(&chars("a"), &chars("")));
    assert!(chars_le(&chars("a"), &chars("ab")));
    assert!(!chars_le(&chars("ab"), &chars("a")));
    assert!(chars_le(&chars("Z"), &chars("a")));
    assert!(!chars_le(&chars("a"), &chars("Z")));
    assert!(chars_le(&chars("a/b"), &chars("a0")));
    assert!(chars_le(&chars("z"), &chars("é")));
    assert!(chars_le(&chars("same"), &chars("same")));
}

#[test]
fn order_agrees_with_the_order_of_strings() {
    let samples = ["", "a", "ab", "b", "B", "a/b", "a.b", "_x", "é", "z", "a b"];
    for a in samples {
        for b in samples {
            assert_eq!(chars_le(&chars(a), &chars(b)), a <= b);
        }
    }
}

#[test]
fn position_behind_the_last_mark() {
    assert_eq!(chars_after_last(&chars("a/b/c"), '/'), 4);
    assert_eq!(chars_after_last(&chars("abc"), '/'), 0);
    assert_eq!(chars_after_last(&chars("abc/"), '/'), 4);
    assert_eq!(chars_after_last(&chars(""), '/'), 0);
}

#[test]
fn file_name_is_the_final_component() {
    assert_eq!(file_name_of("/pkg/templates/index.tpl"), "index.tpl");
    assert_eq!(file_name_of("index.tpl"), "index.tpl");
    assert_eq!(file_name_of("/pkg/templates/"), "");
    assert_eq!(file_name_of(""), "");
}

#[test]
fn partial_has_underscore_and_partial_extension() {
    assert!(is_partial_template("_macros.tpl"));
    assert!(is_partial_template("/pkg/templates/_macros.tpl"));
    assert!(is_partial_template("_a.b.tpl"));
    assert!(is_partial_template("_.tpl"));
}

#[test]
fn template_without_underscore_is_no_partial() {
    assert!(!is_partial_template("index.tpl"));
    assert!(!is_partial_template("/pkg/templates/index.tpl"));
    assert!(!is_partial_template("/pkg/_templates/index.tpl"));
    assert!(!is_partial_template("a_b.tpl"));
}

#[test]
fn underscore_without_partial_extension_is_no_partial() {
    assert!(!is_partial_template("_macros.txt"));
    assert!(!is_partial_template("_macros"));
    assert!(!is_partial_template("_tpl"));
    assert!(!is_partial_template("_macros.tpl.bak"));
    assert!(!is_partial_template("_macros.tplx"));
    assert!(!is_partial_template("_macros.tp"));
    assert!(!is_partial_template("_macros."));
    assert!(!is_partial_template(""));
    assert!(!is_partial_template(".tpl"));
}

#[test]
fn join_puts_one_separator_between() {
    assert_eq!(join("/out", "logo.png"), "/out/logo.png");
    assert_eq!(join("/out/", "logo.png"), "/out/logo.png");
    assert_eq!(join("out", "img/logo.png"), "out/img/logo.png");
    assert_eq!(join("", "logo.png"), "logo.png");
    assert_eq!(join("/out", ""), "/out/");
}

#[test]
fn join_with_rooted_path_replaces() {
    assert_eq!(join("/out", "/etc/passwd"), "/etc/passwd");
}

#[test]
fn relative_path_below_a_directory() {
    assert_eq!(relative_path("/pkg/files/logo.png", "/pkg/files"), Some("logo.png".to_string()));
    assert_eq!(relative_path("/pkg/files/logo.png", "/pkg/files/"), Some("logo.png".to_string()));
    assert_eq!(
        relative_path("/pkg/files/img/logo.png", "/pkg/files"),
        Some("img/logo.png".to_string())
    );
    assert_eq!(relative_path("/pkg/files//logo.png", "/pkg/files"), Some("logo.png".to_string()));
    assert_eq!(relative_path("a/b", ""), Some("a/b".to_string()));
}

#[test]
fn relative_path_of_what_is_not_below() {
    assert_eq!(relative_path("/pkg/files", "/pkg/files"), None);
    assert_eq!(relative_path("/pkg/files/", "/pkg/files"), None);
    assert_eq!(relative_path("/pkg/filesystem/x", "/pkg/files"), None);
    assert_eq!(relative_path("/other/logo.png", "/pkg/files"), None);
    assert_eq!(relative_path("/pkg", "/pkg/files"), None);
}

#[test]
fn sort_orders_paths_ascending() {
    let paths = strings(&["/t/b.tpl", "/t/_m.tpl", "/t/a.tpl", "/t/B.tpl", "/t/a.tpl"]);
    assert_eq!(
        sort_paths(&paths),
        strings(&["/t/B.tpl", "/t/_m.tpl", "/t/a.tpl", "/t/a.tpl", "/t/b.tpl"])
    );
    assert_eq!(sort_paths(&Vec::new()), Vec::<String>::new());
}

#[test]
fn sort_agrees_with_the_sort_of_strings() {
    let paths = strings(&["z", "a/b", "a", "é", "A", "a.b", "", "a b", "a"]);
    let mut expected = paths.clone();
    expected.sort();
    assert_eq!(sort_paths(&paths), expected);
}

#[test]
fn sort_does_not_depend_on_the_order_given() {
    let one = strings(&["c", "a", "b"]);
    let other = strings(&["b", "c", "a"]);
    assert_eq!(sort_paths(&one), sort_paths(&other));
}

#[test]
fn join_agrees_with_the_join_of_paths() {
    let directories = ["", "/", "/out", "/out/", "out", "a/b", "./x"];
    let names = ["", "a", "a/b", "/abs", "/", "img/logo.png", ".hidden", "a/"];
    for directory in directories {
        for name in names {
            let expected = std::path::Path::new(directory).join(name);
            assert_eq!(join(directory, name), expected.to_str().unwrap());
        }
    }
}

#[test]
fn file_name_agrees_with_the_file_name_of_paths() {
    for path in ["/pkg/templates/index.tpl", "index.tpl", "a/b/_c.tpl", "/x/.hidden", "x/y.tar.gz"] {
        let expected = std::path::Path::new(path).file_name().unwrap().to_str().unwrap();
        assert_eq!(file_name_of(path), expected);
    }
}

#[test]
fn relative_path_agrees_with_strip_prefix_of_paths() {
    let bases = ["/pkg/files", "/pkg/files/", "/pkg", "pkg/files", "/other"];
    let paths = [
        "/pkg/files/logo.png",
        "/pkg/files/img/logo.png",
        "/pkg/filesystem/x",
        "/pkg/templates/page.tpl",
        "pkg/files/a",
        "/other",
    ];
    for base in bases {
        for path in paths {
            let expected = std::path::Path::new(path)
                .strip_prefix(base)
                .ok()
                .map(|below| below.to_str().unwrap().to_string())
                .filter(|below| !below.is_empty());
            assert_eq!(relative_path(path, base), expected);
        }
    }
}

#[test]
fn partial_agrees_with_name_and_extension_of_paths() {
    let paths = [
        "_macros.tpl",
        "/t/_macros.tpl",
        "/t/index.tpl",
        "/t/_notes.txt",
        "/t/_a.b.tpl",
        "/t/_tpl",
        "/t/_.tpl",
        "/t/Makefile",
        "/_t/page.tpl",
    ];
    for path in paths {
        let path_value = std::path::Path::new(path);
        let name = path_value.file_name().unwrap().to_str().unwrap();
        let extension = path_value.extension().and_then(|e| e.to_str());
        assert_eq!(is_partial_template(path), name.starts_with('_') && extension == Some("tpl"));
    }
}
