use demiurgos::scaffold::{
    create_new_template, scaffold_directory, Dependency, NewFile, Scaffold, Template,
};

#[test]
fn new_template_is_planned_in_the_current_directory() {
    assert_eq!(
        create_new_template("landing", false),
        Some(Scaffold {
            directory: "./landing".to_string(),
            metadata_path: "./landing/template.yaml".to_string(),
            metadata: Template {
                name: "landing".to_string(),
                version: "0.0.1".to_string(),
                description: "A template for".to_string(),
                dependencies: Vec::new(),
            },
            files: vec![
                NewFile {
                    path: "./landing/README.md".to_string(),
                    content: "# Template README\n\nThis is your template's README file."
                        .to_string(),
                },
                NewFile {
                    path: "./landing/template.html".to_string(),
                    content: "<!-- Your template content here -->".to_string(),
                },
            ],
        })
    );
}

#[test]
fn new_template_is_not_planned_over_a_directory_that_exists() {
    assert_eq!(create_new_template("landing", true), None);
}

#[test]
fn template_dependency_holds_name_version_and_repository() {
    let dependency = Dependency {
        name: "base".to_string(),
        version: "1.0.0".to_string(),
        repository: "https://github.com/owner/base".to_string(),
    };
    let template = Template {
        name: "landing".to_string(),
        version: "0.0.1".to_string(),
        description: "A template for".to_string(),
        dependencies: vec![dependency.clone()],
    };
    assert_eq!(template.dependencies[0], dependency);
    assert_eq!(template.clone(), template);
}

#[test]
fn new_template_directory_is_named_after_the_template() {
    assert_eq!(scaffold_directory("landing"), "./landing");
    assert_eq!(scaffold_directory(""), "./");
}
