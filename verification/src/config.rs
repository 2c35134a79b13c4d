//! Configuration documents: the references that a document makes to other
//! files are replaced by the documents those files hold, and the output
//! folder is set.

use crate::json::{
    find_member, json_document, lemma_with_member, member_names, member_position, members_view,
    read_json, with_member, Json, JsonValue,
};
use crate::path::{join, joined};
use crate::text::{
    first_position, lemma_first_position, lemma_first_position_absent,
    lemma_first_position_found, optional_text,
};
use vstd::prelude::*;

verus! {

/// The name of the member that holds a document's entities.
pub const ENTITIES_KEY: &'static str = "entities";

/// The name of the one member of a reference.
pub const REFERENCE_KEY: &'static str = "$ref";

/// The name of the member that holds the output folder.
pub const OUTPUT_FOLDER_KEY: &'static str = "outputFolder";

/// The file that `value` refers to, where `value` is a reference: a
/// mapping whose one member is named `$ref` and holds a text.
pub open spec fn reference_target(value: JsonValue) -> Option<Seq<char>> {
    match value {
        JsonValue::Object(members) => {
            if members.len() == 1 && members[0].0 == REFERENCE_KEY@ {
                match members[0].1 {
                    JsonValue::Text(target) => Some(target),
                    _ => None,
                }
            } else {
                None
            }
        },
        _ => None,
    }
}

/// The entities of a document: the members of the mapping that its first
/// member named `entities` holds.
pub open spec fn entities_of(config: JsonValue) -> Seq<(Seq<char>, JsonValue)> {
    match config.member(ENTITIES_KEY@) {
        Some(JsonValue::Object(entities)) => entities,
        _ => Seq::empty(),
    }
}

/// A reference that a document makes.
#[derive(Debug, PartialEq, Eq)]
pub struct Reference {
    /// The entity that is the reference.
    pub entity: String,
    /// The file it refers to, as the document names it.
    pub target: String,
    /// The same file, from the directory that holds the document.
    pub path: String,
}

/// The mathematical value of a [`Reference`].
pub struct ReferenceView {
    pub entity: Seq<char>,
    pub target: Seq<char>,
    pub path: Seq<char>,
}

impl View for Reference {
    type V = ReferenceView;

    open spec fn view(&self) -> ReferenceView {
        ReferenceView { entity: self.entity@, target: self.target@, path: self.path@ }
    }
}

/// The references among `entities`, in order, for a document that lies
/// in the directory `parent`.
pub open spec fn references_among(entities: Seq<(Seq<char>, JsonValue)>, parent: Seq<char>) -> Seq<
    ReferenceView,
>
    decreases entities.len(),
{
    if entities.len() == 0 {
        Seq::empty()
    } else {
        let before = references_among(entities.drop_last(), parent);
        match reference_target(entities.last().1) {
            Some(target) => before.push(
                ReferenceView { entity: entities.last().0, target, path: joined(parent, target) },
            ),
            None => before,
        }
    }
}

/// What came of loading the file that a reference names.
#[derive(Debug, PartialEq, Eq)]
pub enum Loaded {
    /// There is no such file.
    Missing,
    /// The file does not hold a document.
    Invalid,
    Document(Json),
}

/// The mathematical value of a [`Loaded`].
pub enum LoadedValue {
    Missing,
    Invalid,
    Document(JsonValue),
}

impl View for Loaded {
    type V = LoadedValue;

    open spec fn view(&self) -> LoadedValue {
        match self {
            Loaded::Missing => LoadedValue::Missing,
            Loaded::Invalid => LoadedValue::Invalid,
            Loaded::Document(json) => LoadedValue::Document(json@),
        }
    }
}

/// The files that were loaded, each under the name by which a document
/// refers to it.
pub open spec fn loaded_view(loaded: Seq<(String, Loaded)>) -> Seq<(Seq<char>, LoadedValue)> {
    loaded.map_values(|entry: (String, Loaded)| (entry.0@, entry.1@))
}

/// What came of loading `target`: what the first entry under that name
/// says, and missing where there is no entry.
pub open spec fn loaded_for(
    loaded: Seq<(Seq<char>, LoadedValue)>,
    target: Seq<char>,
) -> LoadedValue {
    match first_position(loaded.map_values(|entry: (Seq<char>, LoadedValue)| entry.0), target) {
        Some(at) => loaded[at].1,
        None => LoadedValue::Missing,
    }
}

/// An entity after dereferencing: a reference whose file holds a document
/// is that document, as it stands in the file; anything else is itself.
pub open spec fn resolved_entity(
    value: JsonValue,
    loaded: Seq<(Seq<char>, LoadedValue)>,
) -> JsonValue {
    match reference_target(value) {
        Some(target) => match loaded_for(loaded, target) {
            LoadedValue::Document(document) => document,
            _ => value,
        },
        None => value,
    }
}

/// The entities of a document after dereferencing.
pub open spec fn resolved_entities(
    entities: Seq<(Seq<char>, JsonValue)>,
    loaded: Seq<(Seq<char>, LoadedValue)>,
) -> Seq<(Seq<char>, JsonValue)> {
    entities.map_values(
        |entity: (Seq<char>, JsonValue)| (entity.0, resolved_entity(entity.1, loaded)),
    )
}

/// A document after dereferencing: where its first member named
/// `entities` holds a mapping, each entity in it is resolved; all else
/// is as it was.
pub open spec fn dereferenced(
    config: JsonValue,
    loaded: Seq<(Seq<char>, LoadedValue)>,
) -> JsonValue {
    match config {
        JsonValue::Object(members) => match member_position(members, ENTITIES_KEY@) {
            Some(at) => match members[at].1 {
                JsonValue::Object(entities) => JsonValue::Object(
                    members.update(
                        at,
                        (members[at].0, JsonValue::Object(resolved_entities(entities, loaded))),
                    ),
                ),
                _ => config,
            },
            None => config,
        },
        _ => config,
    }
}

/// Why a reference stays unresolved.
#[derive(Debug, Clone, Copy, PartialEq, Eq, Structural)]
pub enum ResolveErrorKind {
    MissingFile,
    InvalidDocument,
}

/// A reference that stays unresolved: the cause, the entity, and the file
/// that it names.
#[derive(Debug, PartialEq, Eq)]
pub struct ResolveError {
    pub kind: ResolveErrorKind,
    pub entity: String,
    pub target: String,
}

/// The mathematical value of a [`ResolveError`].
pub struct ResolveFailure {
    pub kind: ResolveErrorKind,
    pub entity: Seq<char>,
    pub target: Seq<char>,
}

impl View for ResolveError {
    type V = ResolveFailure;

    open spec fn view(&self) -> ResolveFailure {
        ResolveFailure { kind: self.kind, entity: self.entity@, target: self.target@ }
    }
}

/// The references among `entities` that stay unresolved, in order.
pub open spec fn failures_among(
    entities: Seq<(Seq<char>, JsonValue)>,
    loaded: Seq<(Seq<char>, LoadedValue)>,
) -> Seq<ResolveFailure>
    decreases entities.len(),
{
    if entities.len() == 0 {
        Seq::empty()
    } else {
        let before = failures_among(entities.drop_last(), loaded);
        let entity = entities.last().0;
        match reference_target(entities.last().1) {
            Some(target) => match loaded_for(loaded, target) {
                LoadedValue::Document(_) => before,
                LoadedValue::Missing => before.push(
                    ResolveFailure { kind: ResolveErrorKind::MissingFile, entity, target },
                ),
                LoadedValue::Invalid => before.push(
                    ResolveFailure { kind: ResolveErrorKind::InvalidDocument, entity, target },
                ),
            },
            None => before,
        }
    }
}

/// A document with the output folder set: a mapping has `output` as its
/// member named `outputFolder`; a document that is no mapping is as it was.
pub open spec fn with_output_folder(config: JsonValue, output: Seq<char>) -> JsonValue {
    match config {
        JsonValue::Object(members) => JsonValue::Object(
            with_member(members, OUTPUT_FOLDER_KEY@, JsonValue::Text(output)),
        ),
        other => other,
    }
}

/// The output folder that is set last is the one that a document has:
/// whatever the files that its references name hold, a mapping that was
/// dereferenced and then given an output folder has that output folder.
pub proof fn lemma_output_folder_survives(
    config: JsonValue,
    loaded: Seq<(Seq<char>, LoadedValue)>,
    output: Seq<char>,
)
    requires
        config is Object,
    ensures
        with_output_folder(dereferenced(config, loaded), output).member(OUTPUT_FOLDER_KEY@)
            == Some(JsonValue::Text(output)),
{
    let resolved = dereferenced(config, loaded);
    lemma_with_member(resolved->Object_0, OUTPUT_FOLDER_KEY@, JsonValue::Text(output));
}

/// Dereferencing keeps the shape of a document: a mapping stays a mapping
/// with the same members in the same order, of which at most the one
/// that holds the entities has another value, and the entities keep their
/// names and their order.
pub proof fn lemma_dereferenced_keeps_names(
    config: JsonValue,
    loaded: Seq<(Seq<char>, LoadedValue)>,
)
    ensures
        config is Object <==> dereferenced(config, loaded) is Object,
        config is Object ==> member_names(dereferenced(config, loaded)->Object_0) == member_names(
            config->Object_0,
        ),
        config is Object ==> forall|i: int|
            0 <= i < config->Object_0.len() && member_position(config->Object_0, ENTITIES_KEY@)
                != Some(i) ==> dereferenced(config, loaded)->Object_0[i] == config->Object_0[i],
        member_names(entities_of(dereferenced(config, loaded))) == member_names(
            entities_of(config),
        ),
{
    match config {
        JsonValue::Object(members) => {
            lemma_first_position(member_names(members), ENTITIES_KEY@);
            match member_position(members, ENTITIES_KEY@) {
                Some(at) => match members[at].1 {
                    JsonValue::Object(entities) => {
                        let resolved = resolved_entities(entities, loaded);
                        let after = members.update(
                            at,
                            (members[at].0, JsonValue::Object(resolved)),
                        );
                        assert(member_names(after) =~= member_names(members));
                        assert(member_names(resolved) =~= member_names(entities));
                    },
                    _ => {},
                },
                None => {},
            }
        },
        _ => {},
    }
}

/// A document that makes no reference is left as it is.
pub proof fn lemma_dereferenced_without_references(
    config: JsonValue,
    loaded: Seq<(Seq<char>, LoadedValue)>,
    parent: Seq<char>,
)
    requires
        references_among(entities_of(config), parent).len() == 0,
    ensures
        dereferenced(config, loaded) == config,
{
    match config {
        JsonValue::Object(members) => match member_position(members, ENTITIES_KEY@) {
            Some(at) => match members[at].1 {
                JsonValue::Object(entities) => {
                    lemma_first_position(member_names(members), ENTITIES_KEY@);
                    lemma_no_references(entities, parent);
                    assert(resolved_entities(entities, loaded) =~= entities);
                    assert(members.update(at, (members[at].0, JsonValue::Object(entities)))
                        =~= members);
                },
                _ => {},
            },
            None => {},
        },
        _ => {},
    }
}

/// Where no references are found among `entities`, none of them is one.
pub proof fn lemma_no_references(entities: Seq<(Seq<char>, JsonValue)>, parent: Seq<char>)
    requires
        references_among(entities, parent).len() == 0,
    ensures
        forall|i: int|
            0 <= i < entities.len() ==> reference_target(#[trigger] entities[i].1) is None,
    decreases entities.len(),
{
    if entities.len() > 0 {
        let before = entities.drop_last();
        lemma_no_references(before, parent);
        assert forall|i: int| 0 <= i < entities.len() implies reference_target(
            #[trigger] entities[i].1,
        ) is None by {
            if i < before.len() {
                assert(before[i] == entities[i]);
            }
        }
    }
}

/// The failures that `errors` report.
pub open spec fn failures_view(errors: Seq<ResolveError>) -> Seq<ResolveFailure> {
    errors.map_values(|error: ResolveError| error@)
}

/// The references that `references` hold.
pub open spec fn references_view(references: Seq<Reference>) -> Seq<ReferenceView> {
    references.map_values(|reference: Reference| reference@)
}

/// The file that `value` refers to, where `value` is a reference.
pub fn reference_of(value: &Json) -> (target: Option<String>)
    ensures
        optional_text(target) == reference_target(value@),
{
    match value {
        Json::Object(members) => {
            assert(value@ == JsonValue::Object(members_view(members@)));
            if members.len() == 1 && members[0].0 == String::from_str(REFERENCE_KEY) {
                match &members[0].1 {
                    Json::Text(target) => Some(target.clone()),
                    _ => None,
                }
            } else {
                None
            }
        },
        _ => None,
    }
}

/// The references that `config` makes, in the order of its entities, for
/// a document that lies in the directory `parent`.
pub fn pending_references(config: &Json, parent: &str) -> (references: Vec<Reference>)
    ensures
        references_view(references@) == references_among(entities_of(config@), parent@),
{
    let mut references: Vec<Reference> = Vec::new();
    let entities = match config.member(ENTITIES_KEY) {
        Some(Json::Object(entities)) => entities,
        _ => {
            return references;
        },
    };
    let ghost all = members_view(entities@);
    let mut i: usize = 0;
    while i < entities.len()
        invariant
            i <= entities.len(),
            all == members_view(entities@),
            references_view(references@) == references_among(all.take(i as int), parent@),
        decreases entities.len() - i,
    {
        assert(all.take(i + 1).drop_last() =~= all.take(i as int));
        match reference_of(&entities[i].1) {
            Some(target) => {
                let reference = Reference {
                    entity: entities[i].0.clone(),
                    path: join(parent, target.as_str()),
                    target,
                };
                references.push(reference);
            },
            None => {},
        }
        i += 1;
    }
    assert(all.take(i as int) =~= all);
    references
}

/// The position of the first entry of `loaded` under the name `target`.
fn find_loaded(loaded: &Vec<(String, Loaded)>, target: &String) -> (found: Option<usize>)
    ensures
        match found {
            Some(at) => at < loaded.len() && loaded_for(loaded_view(loaded@), target@)
                == loaded@[at as int].1@,
            None => loaded_for(loaded_view(loaded@), target@) == LoadedValue::Missing,
        },
{
    let ghost names = loaded_view(loaded@).map_values(|entry: (Seq<char>, LoadedValue)| entry.0);
    let mut i: usize = 0;
    while i < loaded.len()
        invariant
            i <= loaded.len(),
            names == loaded_view(loaded@).map_values(|entry: (Seq<char>, LoadedValue)| entry.0),
            forall|j: int| 0 <= j < i ==> names[j] != target@,
        decreases loaded.len() - i,
    {
        if loaded[i].0 == *target {
            proof {
                lemma_first_position_found(names, target@, i as int);
            }
            return Some(i);
        }
        i += 1;
    }
    proof {
        lemma_first_position_absent(names, target@);
    }
    None
}

/// Resolves each of `entities` against the files that were loaded, and
/// reports the references that stay unresolved.
fn resolve_entities(entities: Vec<(String, Json)>, loaded: &Vec<(String, Loaded)>) -> (result: (
    Vec<(String, Json)>,
    Vec<ResolveError>,
))
    ensures
        members_view(result.0@) == resolved_entities(
            members_view(entities@),
            loaded_view(loaded@),
        ),
        failures_view(result.1@) == failures_among(members_view(entities@), loaded_view(loaded@)),
{
    let ghost all = members_view(entities@);
    let ghost table = loaded_view(loaded@);
    let mut resolved: Vec<(String, Json)> = Vec::new();
    let mut errors: Vec<ResolveError> = Vec::new();
    for entity in it: entities
        invariant
            it.seq() == entities@,
            all == members_view(entities@),
            table == loaded_view(loaded@),
            resolved@.len() == it.index(),
            forall|j: int|
                0 <= j < it.index() ==> (#[trigger] resolved@[j]).0@ == all[j].0 && resolved@[j].1@
                    == resolved_entity(all[j].1, table),
            failures_view(errors@) == failures_among(all.take(it.index() as int), table),
    {
        let ghost at = it.index() as int;
        assert(all.take(at + 1).drop_last() =~= all.take(at));
        let (name, value) = entity;
        match reference_of(&value) {
            Some(target) => {
                let found = find_loaded(loaded, &target);
                let kind = match found {
                    Some(k) => match &loaded[k].1 {
                        Loaded::Document(document) => {
                            resolved.push((name, document.clone()));
                            None
                        },
                        Loaded::Invalid => Some((ResolveErrorKind::InvalidDocument, name)),
                        Loaded::Missing => Some((ResolveErrorKind::MissingFile, name)),
                    },
                    None => Some((ResolveErrorKind::MissingFile, name)),
                };
                match kind {
                    Some((kind, name)) => {
                        let error = ResolveError { kind, entity: name.clone(), target };
                        errors.push(error);
                        resolved.push((name, value));
                    },
                    None => {},
                }
            },
            None => {
                resolved.push((name, value));
            },
        }
    }
    assert(all.take(entities@.len() as int) =~= all);
    (resolved, errors)
}

/// Replaces each reference among the entities of `config` by the
/// document that its file holds, from the files that were `loaded`, and
/// reports the references that stay unresolved.
pub fn dereference_with(config: &mut Json, loaded: &Vec<(String, Loaded)>) -> (errors: Vec<
    ResolveError,
>)
    ensures
        final(config)@ == dereferenced(old(config)@, loaded_view(loaded@)),
        failures_view(errors@) == failures_among(
            entities_of(old(config)@),
            loaded_view(loaded@),
        ),
{
    let mut errors: Vec<ResolveError> = Vec::new();
    match config {
        Json::Object(members) => {
            let ghost before = members_view(members@);
            match find_member(members, ENTITIES_KEY) {
                Some(at) => {
                    let (name, held) = members.remove(at);
                    match held {
                        Json::Object(entities) => {
                            let (resolved, reported) = resolve_entities(entities, loaded);
                            errors = reported;
                            members.insert(at, (name, Json::Object(resolved)));
                            assert(members_view(members@) =~= before.update(
                                at as int,
                                (
                                    before[at as int].0,
                                    JsonValue::Object(
                                        resolved_entities(
                                            before[at as int].1->Object_0,
                                            loaded_view(loaded@),
                                        ),
                                    ),
                                ),
                            ));
                        },
                        other => {
                            members.insert(at, (name, other));
                            assert(members_view(members@) =~= before);
                        },
                    }
                },
                None => {},
            }
        },
        _ => {},
    }
    errors
}

/// The content of a file that a reference names.
#[derive(Debug, PartialEq, Eq)]
pub struct Fetched {
    /// The file, as the document names it.
    pub target: String,
    /// What the file holds: `None` where there is no such file.
    pub content: Option<String>,
}

/// What came of loading a file with the given content.
pub open spec fn parsed(content: Option<String>) -> LoadedValue {
    match content {
        Some(text) => match json_document(text@) {
            Some(document) => LoadedValue::Document(document),
            None => LoadedValue::Invalid,
        },
        None => LoadedValue::Missing,
    }
}

/// What came of loading each of the files that were fetched.
pub open spec fn parsed_each(fetched: Seq<Fetched>) -> Seq<(Seq<char>, LoadedValue)> {
    fetched.map_values(|file: Fetched| (file.target@, parsed(file.content)))
}

/// Reads the document that each of the files that were fetched holds.
pub fn load_fetched(fetched: &Vec<Fetched>) -> (loaded: Vec<(String, Loaded)>)
    ensures
        loaded_view(loaded@) == parsed_each(fetched@),
{
    let mut loaded: Vec<(String, Loaded)> = Vec::new();
    let mut i: usize = 0;
    while i < fetched.len()
        invariant
            i <= fetched.len(),
            loaded@.len() == i,
            forall|j: int|
                0 <= j < i ==> (#[trigger] loaded@[j]).0@ == fetched@[j].target@ && loaded@[j].1@
                    == parsed(fetched@[j].content),
        decreases fetched.len() - i,
    {
        let outcome = match &fetched[i].content {
            Some(text) => match read_json(text.as_str()) {
                Some(document) => Loaded::Document(document),
                None => Loaded::Invalid,
            },
            None => Loaded::Missing,
        };
        loaded.push((fetched[i].target.clone(), outcome));
        i += 1;
    }
    loaded
}

/// Replaces each reference among the entities of `config` by the
/// document that its file holds, from the files that were `fetched`, and
/// reports the references that stay unresolved.
pub fn dereference_config(config: &mut Json, fetched: &Vec<Fetched>) -> (errors: Vec<ResolveError>)
    ensures
        final(config)@ == dereferenced(old(config)@, parsed_each(fetched@)),
        failures_view(errors@) == failures_among(entities_of(old(config)@), parsed_each(fetched@)),
{
    let loaded = load_fetched(fetched);
    dereference_with(config, &loaded)
}

/// Why there is no configuration document.
#[derive(Debug, Clone, Copy, PartialEq, Eq, Structural)]
pub enum ConfigError {
    /// The configuration file cannot be read.
    Unreadable,
    /// The configuration file does not hold a document.
    InvalidDocument,
}

/// The configuration document that a file holds, from the content of the
/// file. The content is `None` where the file cannot be read.
pub fn config_from_text(content: Option<&str>) -> (result: Result<Json, ConfigError>)
    ensures
        match content {
            Some(text) => match json_document(text@) {
                Some(document) => result matches Ok(config) && config@ == document,
                None => result == Err::<Json, ConfigError>(ConfigError::InvalidDocument),
            },
            None => result == Err::<Json, ConfigError>(ConfigError::Unreadable),
        },
{
    match content {
        Some(text) => match read_json(text) {
            Some(config) => Ok(config),
            None => Err(ConfigError::InvalidDocument),
        },
        None => Err(ConfigError::Unreadable),
    }
}

/// Sets the output folder of `config`.
pub fn inject_output_folder(config: &mut Json, output: &str)
    ensures
        final(config)@ == with_output_folder(old(config)@, output@),
{
    config.set_member(OUTPUT_FOLDER_KEY, Json::Text(String::from_str(output)));
}

} // verus!
