//! The scaffold of a new template package: its directory, its metadata
//! and the files it starts with.

use vstd::prelude::*;

verus! {

/// A template that a template package depends on.
#[derive(Debug, Clone, PartialEq, Eq)]
pub struct Dependency {
    pub name: String,
    pub version: String,
    pub repository: String,
}

/// The mathematical value of a [`Dependency`].
pub struct DependencyView {
    pub name: Seq<char>,
    pub version: Seq<char>,
    pub repository: Seq<char>,
}

impl View for Dependency {
    type V = DependencyView;

    open spec fn view(&self) -> DependencyView {
        DependencyView {
            name: self.name@,
            version: self.version@,
            repository: self.repository@,
        }
    }
}

/// The metadata of a template package.
#[derive(Debug, Clone, PartialEq, Eq)]
pub struct Template {
    pub name: String,
    pub version: String,
    pub description: String,
    pub dependencies: Vec<Dependency>,
}

/// The mathematical value of a [`Template`].
pub struct TemplateView {
    pub name: Seq<char>,
    pub version: Seq<char>,
    pub description: Seq<char>,
    pub dependencies: Seq<DependencyView>,
}

impl View for Template {
    type V = TemplateView;

    open spec fn view(&self) -> TemplateView {
        TemplateView {
            name: self.name@,
            version: self.version@,
            description: self.description@,
            dependencies: self.dependencies@.map_values(|d: Dependency| d@),
        }
    }
}

/// A file that a new package starts with.
#[derive(Debug, Clone, PartialEq, Eq)]
pub struct NewFile {
    pub path: String,
    pub content: String,
}

/// A new template package: its directory, the file that holds its
/// metadata, the metadata, and its other files.
#[derive(Debug, Clone, PartialEq, Eq)]
pub struct Scaffold {
    pub directory: String,
    pub metadata_path: String,
    pub metadata: Template,
    pub files: Vec<NewFile>,
}

/// The mathematical value of a [`Scaffold`].
pub struct ScaffoldView {
    pub directory: Seq<char>,
    pub metadata_path: Seq<char>,
    pub metadata: TemplateView,
    pub files: Seq<(Seq<char>, Seq<char>)>,
}

impl View for Scaffold {
    type V = ScaffoldView;

    open spec fn view(&self) -> ScaffoldView {
        ScaffoldView {
            directory: self.directory@,
            metadata_path: self.metadata_path@,
            metadata: self.metadata@,
            files: self.files@.map_values(|file: NewFile| (file.path@, file.content@)),
        }
    }
}

/// The directory of the new package `name`: of that name, in the current
/// directory.
pub open spec fn scaffold_directory_of(name: Seq<char>) -> Seq<char> {
    "./"@ + name
}

/// The scaffold of the new package `name`: a directory of that name in
/// the current directory, metadata at version `0.0.1` without
/// dependencies, a readme and an empty template.
pub open spec fn scaffold_of(name: Seq<char>) -> ScaffoldView {
    let directory = scaffold_directory_of(name);
    ScaffoldView {
        directory,
        metadata_path: directory + "/template.yaml"@,
        metadata: TemplateView {
            name,
            version: "0.0.1"@,
            description: "A template for"@,
            dependencies: Seq::empty(),
        },
        files: seq![
            (
                directory + "/README.md"@,
                "# Template README\n\nThis is your template's README file."@,
            ),
            (directory + "/template.html"@, "<!-- Your template content here -->"@),
        ],
    }
}

/// The directory of the new package `name`.
pub fn scaffold_directory(name: &str) -> (directory: String)
    ensures
        directory@ == scaffold_directory_of(name@),
{
    String::from_str("./").concat(name)
}

/// Plans the new package `name`, where `exists` says whether its
/// directory is there already: nothing is planned over what is there.
pub fn create_new_template(name: &str, exists: bool) -> (scaffold: Option<Scaffold>)
    ensures
        match scaffold {
            Some(planned) => !exists && planned@ == scaffold_of(name@),
            None => exists,
        },
{
    if exists {
        return None;
    }
    let directory = scaffold_directory(name);
    let metadata = Template {
        name: String::from_str(name),
        version: String::from_str("0.0.1"),
        description: String::from_str("A template for"),
        dependencies: Vec::new(),
    };
    let mut files: Vec<NewFile> = Vec::new();
    files.push(
        NewFile {
            path: directory.clone().concat("/README.md"),
            content: String::from_str("# Template README\n\nThis is your template's README file."),
        },
    );
    files.push(
        NewFile {
            path: directory.clone().concat("/template.html"),
            content: String::from_str("<!-- Your template content here -->"),
        },
    );
    let scaffold = Scaffold {
        metadata_path: directory.clone().concat("/template.yaml"),
        directory,
        metadata,
        files,
    };
    assert(scaffold@.files =~= scaffold_of(name@).files);
    assert(scaffold@.metadata.dependencies =~= Seq::empty());
    Some(scaffold)
}

} // verus!
