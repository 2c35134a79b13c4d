//! The manifest of a generator package.

use crate::text::{optional_text, texts};
use vstd::prelude::*;

verus! {

/// The texts that `strings` hold, where there are any.
pub open spec fn optional_texts(strings: Option<Vec<String>>) -> Option<Seq<Seq<char>>> {
    match strings {
        Some(list) => Some(texts(list@)),
        None => None,
    }
}

/// Free-form notes that a manifest carries.
#[derive(Debug, Clone, PartialEq, Eq)]
pub struct Annotations {
    pub example: String,
}

/// The mathematical value of an [`Annotations`].
pub struct AnnotationsView {
    pub example: Seq<char>,
}

impl View for Annotations {
    type V = AnnotationsView;

    open spec fn view(&self) -> AnnotationsView {
        AnnotationsView { example: self.example@ }
    }
}

/// A package that a manifest declares it depends on.
#[derive(Debug, Clone, PartialEq, Eq)]
pub struct Dependency {
    pub name: String,
    /// Where the package is fetched from.
    pub source: String,
    pub condition: Option<String>,
    pub tags: Option<Vec<String>>,
    pub import_values: Option<Vec<String>>,
    pub alias: Option<String>,
}

/// The mathematical value of a [`Dependency`].
pub struct DependencyView {
    pub name: Seq<char>,
    pub source: Seq<char>,
    pub condition: Option<Seq<char>>,
    pub tags: Option<Seq<Seq<char>>>,
    pub import_values: Option<Seq<Seq<char>>>,
    pub alias: Option<Seq<char>>,
}

impl View for Dependency {
    type V = DependencyView;

    open spec fn view(&self) -> DependencyView {
        DependencyView {
            name: self.name@,
            source: self.source@,
            condition: optional_text(self.condition),
            tags: optional_texts(self.tags),
            import_values: optional_texts(self.import_values),
            alias: optional_text(self.alias),
        }
    }
}

/// Someone who maintains a package.
#[derive(Debug, Clone, PartialEq, Eq)]
pub struct Maintainer {
    pub name: String,
    pub email: Option<String>,
    pub url: Option<String>,
}

/// The mathematical value of a [`Maintainer`].
pub struct MaintainerView {
    pub name: Seq<char>,
    pub email: Option<Seq<char>>,
    pub url: Option<Seq<char>>,
}

impl View for Maintainer {
    type V = MaintainerView;

    open spec fn view(&self) -> MaintainerView {
        MaintainerView {
            name: self.name@,
            email: optional_text(self.email),
            url: optional_text(self.url),
        }
    }
}

/// The manifest of a generator package.
#[derive(Debug, Clone, PartialEq, Eq)]
pub struct GeneratorYaml {
    pub api_version: String,
    pub name: String,
    pub version: String,
    pub description: Option<String>,
    pub keywords: Option<Vec<String>>,
    pub home: Option<String>,
    pub sources: Option<Vec<String>>,
    pub dependencies: Option<Vec<Dependency>>,
    pub maintainers: Option<Vec<Maintainer>>,
    pub icon: Option<String>,
    pub deprecated: Option<bool>,
    pub annotations: Option<Annotations>,
}

/// The mathematical value of a [`GeneratorYaml`].
pub struct GeneratorYamlView {
    pub api_version: Seq<char>,
    pub name: Seq<char>,
    pub version: Seq<char>,
    pub description: Option<Seq<char>>,
    pub keywords: Option<Seq<Seq<char>>>,
    pub home: Option<Seq<char>>,
    pub sources: Option<Seq<Seq<char>>>,
    pub dependencies: Option<Seq<DependencyView>>,
    pub maintainers: Option<Seq<MaintainerView>>,
    pub icon: Option<Seq<char>>,
    pub deprecated: Option<bool>,
    pub annotations: Option<AnnotationsView>,
}

impl View for GeneratorYaml {
    type V = GeneratorYamlView;

    open spec fn view(&self) -> GeneratorYamlView {
        GeneratorYamlView {
            api_version: self.api_version@,
            name: self.name@,
            version: self.version@,
            description: optional_text(self.description),
            keywords: optional_texts(self.keywords),
            home: optional_text(self.home),
            sources: optional_texts(self.sources),
            dependencies: match self.dependencies {
                Some(list) => Some(list@.map_values(|d: Dependency| d@)),
                None => None,
            },
            maintainers: match self.maintainers {
                Some(list) => Some(list@.map_values(|m: Maintainer| m@)),
                None => None,
            },
            icon: optional_text(self.icon),
            deprecated: self.deprecated,
            annotations: match self.annotations {
                Some(notes) => Some(notes@),
                None => None,
            },
        }
    }
}

impl GeneratorYamlView {
    /// A manifest identifies a package where it gives both a name and a
    /// version.
    pub open spec fn identifies_package(self) -> bool {
        self.name.len() > 0 && self.version.len() > 0
    }

    /// The name and the version under which the package is installed.
    pub open spec fn install_key(self) -> (Seq<char>, Seq<char>) {
        (self.name, self.version)
    }
}

impl GeneratorYaml {
    /// Whether the manifest gives both a name and a version.
    pub fn identifies_package(&self) -> (identified: bool)
        ensures
            identified == self@.identifies_package(),
    {
        !self.name.as_str().is_empty() && !self.version.as_str().is_empty()
    }
}

} // verus!
