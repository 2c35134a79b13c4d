//! Rendering a package: which files a render copies, and which templates
//! it hands to the rendering engine, in which order.

use crate::generator::{Generator, GeneratorView, FILES_DIRECTORY};
use crate::json::{Json, JsonValue};
use crate::path::{
    is_partial, is_partial_template, join, joined, lemma_ordered_paths,
    lemma_without_leading_separators, ordered_paths, relative_path, relative_to, sort_paths,
};
use crate::text::texts;
use vstd::prelude::*;

verus! {

/// What stands at a path.
#[derive(Debug, Clone, Copy, PartialEq, Eq, Structural)]
pub enum PathState {
    /// Nothing is there.
    Absent,
    /// A directory is there.
    Directory,
    /// Something is there that is no directory.
    Other,
}

/// One file to copy byte for byte.
#[derive(Debug, PartialEq, Eq)]
pub struct FileCopy {
    pub source: String,
    pub target: String,
}

/// The mathematical value of a [`FileCopy`].
pub struct FileCopyView {
    pub source: Seq<char>,
    pub target: Seq<char>,
}

impl View for FileCopy {
    type V = FileCopyView;

    open spec fn view(&self) -> FileCopyView {
        FileCopyView { source: self.source@, target: self.target@ }
    }
}

/// One template to hand to the rendering engine, with the context to
/// hand over with it.
#[derive(Debug, PartialEq, Eq)]
pub struct RenderCall {
    pub template: String,
    pub context: Json,
}

/// The mathematical value of a [`RenderCall`].
pub struct RenderCallView {
    pub template: Seq<char>,
    pub context: JsonValue,
}

impl View for RenderCall {
    type V = RenderCallView;

    open spec fn view(&self) -> RenderCallView {
        RenderCallView { template: self.template@, context: self.context@ }
    }
}

/// What a render does to its destination, in order: create it where it
/// is absent, copy the files, make the calls of the rendering engine.
#[derive(Debug, PartialEq, Eq)]
pub struct RenderPlan {
    pub create_destination: bool,
    pub copies: Vec<FileCopy>,
    pub calls: Vec<RenderCall>,
}

/// The mathematical value of a [`RenderPlan`].
pub struct RenderPlanView {
    pub create_destination: bool,
    pub copies: Seq<FileCopyView>,
    pub calls: Seq<RenderCallView>,
}

impl View for RenderPlan {
    type V = RenderPlanView;

    open spec fn view(&self) -> RenderPlanView {
        RenderPlanView {
            create_destination: self.create_destination,
            copies: self.copies@.map_values(|copy: FileCopy| copy@),
            calls: self.calls@.map_values(|call: RenderCall| call@),
        }
    }
}

impl RenderPlanView {
    /// The plan that does nothing.
    pub open spec fn nothing() -> RenderPlanView {
        RenderPlanView { create_destination: false, copies: Seq::empty(), calls: Seq::empty() }
    }
}

/// Why a render cannot be planned.
#[derive(Debug, Clone, Copy, PartialEq, Eq, Structural)]
pub enum RenderErrorKind {
    /// The destination is there and is no directory.
    NotADirectory,
    /// A file of the package does not lie below its `files/` directory.
    OutsidePackage,
}

/// A render that cannot be planned: the cause, and the path at fault.
#[derive(Debug, PartialEq, Eq)]
pub struct RenderError {
    pub kind: RenderErrorKind,
    pub path: String,
}

/// The mathematical value of a [`RenderError`].
pub struct RenderFailure {
    pub kind: RenderErrorKind,
    pub path: Seq<char>,
}

impl View for RenderError {
    type V = RenderFailure;

    open spec fn view(&self) -> RenderFailure {
        RenderFailure { kind: self.kind, path: self.path@ }
    }
}

/// The copies that bring `files`, which lie below the directory `from`,
/// to the same places below the directory `to`. The first file that does
/// not lie below `from` fails them all.
pub open spec fn planned_copies(files: Seq<Seq<char>>, from: Seq<char>, to: Seq<char>) -> Result<
    Seq<FileCopyView>,
    RenderFailure,
>
    decreases files.len(),
{
    if files.len() == 0 {
        Ok(Seq::empty())
    } else {
        match planned_copies(files.drop_last(), from, to) {
            Ok(copies) => match relative_to(files.last(), from) {
                Some(below) => Ok(
                    copies.push(FileCopyView { source: files.last(), target: joined(to, below) }),
                ),
                None => Err(
                    RenderFailure { kind: RenderErrorKind::OutsidePackage, path: files.last() },
                ),
            },
            Err(failure) => Err(failure),
        }
    }
}

/// The templates among `templates` that are no partials, in order.
pub open spec fn without_partials(templates: Seq<Seq<char>>) -> Seq<Seq<char>>
    decreases templates.len(),
{
    if templates.len() == 0 {
        Seq::empty()
    } else {
        let before = without_partials(templates.drop_last());
        if is_partial(templates.last()) {
            before
        } else {
            before.push(templates.last())
        }
    }
}

/// One call of the rendering engine for each of `templates`, in order,
/// each with `context`.
pub open spec fn calls_for(templates: Seq<Seq<char>>, context: JsonValue) -> Seq<RenderCallView> {
    templates.map_values(|template: Seq<char>| RenderCallView { template, context })
}

impl GeneratorView {
    /// The directory that holds the package's static files.
    pub open spec fn files_root(self) -> Seq<char> {
        joined(self.base_path, FILES_DIRECTORY@)
    }

    /// The templates that a render hands to the rendering engine, in the
    /// order in which it does: ascending, partials left out.
    pub open spec fn templates_to_render(self) -> Seq<Seq<char>> {
        without_partials(ordered_paths(self.templates))
    }

    /// The copying of the package's files to `destination`, where `state`
    /// is what stands there. A package without files copies nothing and
    /// does not look at the destination.
    pub open spec fn copy_plan(self, destination: Seq<char>, state: PathState) -> Result<
        RenderPlanView,
        RenderFailure,
    > {
        match self.files {
            None => Ok(RenderPlanView::nothing()),
            Some(files) => {
                if state is Other {
                    Err(RenderFailure { kind: RenderErrorKind::NotADirectory, path: destination })
                } else {
                    match planned_copies(files, self.files_root(), destination) {
                        Ok(copies) => Ok(
                            RenderPlanView {
                                create_destination: state is Absent,
                                copies,
                                calls: Seq::empty(),
                            },
                        ),
                        Err(failure) => Err(failure),
                    }
                }
            },
        }
    }

    /// The rendering of the package's templates to `destination` with
    /// `context`, where `state` is what stands at the destination. A
    /// package without templates renders nothing and does not look at the
    /// destination.
    pub open spec fn template_plan(
        self,
        destination: Seq<char>,
        state: PathState,
        context: JsonValue,
    ) -> Result<RenderPlanView, RenderFailure> {
        if self.templates.len() == 0 {
            Ok(RenderPlanView::nothing())
        } else if state is Other {
            Err(RenderFailure { kind: RenderErrorKind::NotADirectory, path: destination })
        } else {
            Ok(
                RenderPlanView {
                    create_destination: state is Absent,
                    copies: Seq::empty(),
                    calls: calls_for(self.templates_to_render(), context),
                },
            )
        }
    }

    /// The render of the package to `destination` with `context`, where
    /// `state` is what stands at the destination: nothing for a package
    /// without templates; else the files are copied and the templates
    /// rendered, each with `context` as it was given.
    pub open spec fn render_plan(
        self,
        destination: Seq<char>,
        state: PathState,
        context: JsonValue,
    ) -> Result<RenderPlanView, RenderFailure> {
        if self.templates.len() == 0 {
            Ok(RenderPlanView::nothing())
        } else if state is Other {
            Err(RenderFailure { kind: RenderErrorKind::NotADirectory, path: destination })
        } else {
            match self.copy_plan(destination, state) {
                Ok(copying) => Ok(
                    RenderPlanView {
                        create_destination: state is Absent,
                        copies: copying.copies,
                        calls: calls_for(self.templates_to_render(), context),
                    },
                ),
                Err(failure) => Err(failure),
            }
        }
    }
}

/// The copies that bring `files`, which lie below the directory `from`,
/// to the same places below the directory `to`.
pub fn plan_copies(files: &Vec<String>, from: &str, to: &str) -> (result: Result<
    Vec<FileCopy>,
    RenderError,
>)
    ensures
        match result {
            Ok(copies) => planned_copies(texts(files@), from@, to@) == Ok::<
                Seq<FileCopyView>,
                RenderFailure,
            >(copies@.map_values(|copy: FileCopy| copy@)),
            Err(error) => planned_copies(texts(files@), from@, to@) == Err::<
                Seq<FileCopyView>,
                RenderFailure,
            >(error@),
        },
{
    let mut copies: Vec<FileCopy> = Vec::new();
    let mut i: usize = 0;
    assert(copies@.map_values(|copy: FileCopy| copy@) =~= Seq::empty());
    while i < files.len()
        invariant
            i <= files.len(),
            planned_copies(texts(files@).take(i as int), from@, to@) == Ok::<
                Seq<FileCopyView>,
                RenderFailure,
            >(copies@.map_values(|copy: FileCopy| copy@)),
        decreases files.len() - i,
    {
        let ghost listed = texts(files@);
        assert(listed.take(i + 1).drop_last() =~= listed.take(i as int));
        match relative_path(files[i].as_str(), from) {
            Some(below) => {
                let ghost before = copies@.map_values(|copy: FileCopy| copy@);
                let copy = FileCopy { source: files[i].clone(), target: join(to, below.as_str()) };
                copies.push(copy);
                assert(copies@.map_values(|copy: FileCopy| copy@) =~= before.push(copy@));
            },
            None => {
                let error = RenderError {
                    kind: RenderErrorKind::OutsidePackage,
                    path: files[i].clone(),
                };
                proof {
                    lemma_planned_copies_fail(listed, i as int, from@, to@);
                }
                return Err(error);
            },
        }
        i += 1;
    }
    assert(texts(files@).take(i as int) =~= texts(files@));
    Ok(copies)
}

/// The templates among `templates` that are no partials, in order.
pub fn select_templates(templates: &Vec<String>) -> (selected: Vec<String>)
    ensures
        texts(selected@) == without_partials(texts(templates@)),
{
    let mut selected: Vec<String> = Vec::new();
    let mut i: usize = 0;
    while i < templates.len()
        invariant
            i <= templates.len(),
            texts(selected@) == without_partials(texts(templates@).take(i as int)),
        decreases templates.len() - i,
    {
        let ghost listed = texts(templates@);
        assert(listed.take(i + 1).drop_last() =~= listed.take(i as int));
        if !is_partial_template(templates[i].as_str()) {
            let template = templates[i].clone();
            selected.push(template);
        }
        i += 1;
    }
    assert(texts(templates@).take(i as int) =~= texts(templates@));
    selected
}

/// One call of the rendering engine for each of `templates`, in order,
/// each with `context`.
pub fn plan_calls(templates: Vec<String>, context: &Json) -> (calls: Vec<RenderCall>)
    ensures
        calls@.map_values(|call: RenderCall| call@) == calls_for(texts(templates@), context@),
{
    let ghost wanted = calls_for(texts(templates@), context@);
    let mut calls: Vec<RenderCall> = Vec::new();
    for template in it: templates
        invariant
            it.seq() == templates@,
            wanted == calls_for(texts(templates@), context@),
            calls@.len() == it.index(),
            forall|i: int| 0 <= i < it.index() ==> (#[trigger] calls@[i])@ == wanted[i],
    {
        calls.push(RenderCall { template, context: context.clone() });
    }
    calls
}

impl Generator {
    /// Plans the copying of the package's files to `destination_dir`,
    /// where `state` is what stands there.
    pub fn copy_files(&self, destination_dir: &str, state: PathState) -> (result: Result<
        RenderPlan,
        RenderError,
    >)
        ensures
            match result {
                Ok(plan) => self@.copy_plan(destination_dir@, state) == Ok::<
                    RenderPlanView,
                    RenderFailure,
                >(plan@),
                Err(error) => self@.copy_plan(destination_dir@, state) == Err::<
                    RenderPlanView,
                    RenderFailure,
                >(error@),
            },
    {
        let files = match &self.files {
            None => {
                return Ok(Self::plan(false, Vec::new(), Vec::new()));
            },
            Some(files) => files,
        };
        match state {
            PathState::Other => {
                return Err(
                    RenderError {
                        kind: RenderErrorKind::NotADirectory,
                        path: String::from_str(destination_dir),
                    },
                );
            },
            _ => {},
        }
        let files_root = join(self.base_path.as_str(), FILES_DIRECTORY);
        match plan_copies(files, files_root.as_str(), destination_dir) {
            Ok(copies) => {
                let create = match state {
                    PathState::Absent => true,
                    _ => false,
                };
                Ok(Self::plan(create, copies, Vec::new()))
            },
            Err(error) => Err(error),
        }
    }

    /// Plans the rendering of the package's templates to
    /// `destination_dir` with `values`, where `state` is what stands at
    /// the destination.
    pub fn generate_templates(
        &self,
        destination_dir: &str,
        state: PathState,
        values: &Json,
    ) -> (result: Result<RenderPlan, RenderError>)
        ensures
            match result {
                Ok(plan) => self@.template_plan(destination_dir@, state, values@) == Ok::<
                    RenderPlanView,
                    RenderFailure,
                >(plan@),
                Err(error) => self@.template_plan(destination_dir@, state, values@) == Err::<
                    RenderPlanView,
                    RenderFailure,
                >(error@),
            },
    {
        if self.templates.len() == 0 {
            return Ok(Self::plan(false, Vec::new(), Vec::new()));
        }
        match state {
            PathState::Other => {
                return Err(
                    RenderError {
                        kind: RenderErrorKind::NotADirectory,
                        path: String::from_str(destination_dir),
                    },
                );
            },
            _ => {},
        }
        let create = match state {
            PathState::Absent => true,
            _ => false,
        };
        let templates = select_templates(&sort_paths(&self.templates));
        Ok(Self::plan(create, Vec::new(), plan_calls(templates, values)))
    }

    /// Plans the render of the package to `destination` with `context`,
    /// where `state` is what stands at the destination.
    pub fn render(&self, destination: &str, state: PathState, context: &Json) -> (result: Result<
        RenderPlan,
        RenderError,
    >)
        ensures
            match result {
                Ok(plan) => self@.render_plan(destination@, state, context@) == Ok::<
                    RenderPlanView,
                    RenderFailure,
                >(plan@),
                Err(error) => self@.render_plan(destination@, state, context@) == Err::<
                    RenderPlanView,
                    RenderFailure,
                >(error@),
            },
    {
        if self.templates.len() == 0 {
            return Ok(Self::plan(false, Vec::new(), Vec::new()));
        }
        let dispatch = match self.generate_templates(destination, state, context) {
            Ok(dispatch) => dispatch,
            Err(error) => {
                return Err(error);
            },
        };
        match self.copy_files(destination, state) {
            Ok(copying) => {
                let RenderPlan { create_destination, copies: _, calls } = dispatch;
                let RenderPlan { create_destination: _, copies, calls: _ } = copying;
                Ok(Self::plan(create_destination, copies, calls))
            },
            Err(error) => Err(error),
        }
    }

    fn plan(create_destination: bool, copies: Vec<FileCopy>, calls: Vec<RenderCall>) -> (plan:
        RenderPlan)
        ensures
            plan.create_destination == create_destination,
            plan.copies == copies,
            plan.calls == calls,
            copies@.len() == 0 ==> plan@.copies == Seq::<FileCopyView>::empty(),
            calls@.len() == 0 ==> plan@.calls == Seq::<RenderCallView>::empty(),
    {
        RenderPlan { create_destination, copies, calls }
    }
}

/// A listing fails as its beginning does.
pub proof fn lemma_planned_copies_fail(
    files: Seq<Seq<char>>,
    upto: int,
    from: Seq<char>,
    to: Seq<char>,
)
    requires
        0 <= upto < files.len(),
        planned_copies(files.take(upto + 1), from, to) is Err,
    ensures
        planned_copies(files, from, to) == planned_copies(files.take(upto + 1), from, to),
    decreases files.len(),
{
    if upto + 1 == files.len() {
        assert(files.take(upto + 1) =~= files);
    } else {
        assert(files.drop_last().take(upto + 1) =~= files.take(upto + 1));
        lemma_planned_copies_fail(files.drop_last(), upto, from, to);
    }
}

/// A template is left in by [`without_partials`] exactly where it is no
/// partial.
pub proof fn lemma_without_partials(templates: Seq<Seq<char>>, template: Seq<char>)
    ensures
        without_partials(templates).contains(template) <==> templates.contains(template)
            && !is_partial(template),
    decreases templates.len(),
{
    if templates.len() > 0 {
        let before = templates.drop_last();
        let last = templates.last();
        lemma_without_partials(before, template);
        if templates.contains(template) {
            let at = choose|i: int| 0 <= i < templates.len() && templates[i] == template;
            if at < before.len() {
                assert(before[at] == template);
            }
        }
        if before.contains(template) {
            let at = choose|i: int| 0 <= i < before.len() && before[i] == template;
            assert(templates[at] == template);
        }
        assert(templates[templates.len() - 1] == last);
        let kept = without_partials(before);
        if !is_partial(last) {
            assert(kept.push(last)[kept.len() as int] == last);
            if kept.contains(template) {
                let at = choose|i: int| 0 <= i < kept.len() && kept[i] == template;
                assert(kept.push(last)[at] == template);
            }
        }
    }
}

/// The calls of a render are for the templates that a render hands to
/// the rendering engine, in their order, and each hands over the context
/// as it was given.
pub proof fn lemma_render_calls(
    package: GeneratorView,
    destination: Seq<char>,
    state: PathState,
    context: JsonValue,
)
    requires
        package.render_plan(destination, state, context) is Ok,
        package.templates.len() > 0,
    ensures
        ({
            let calls = package.render_plan(destination, state, context)->Ok_0.calls;
            &&& calls.len() == package.templates_to_render().len()
            &&& forall|i: int|
                0 <= i < calls.len() ==> (#[trigger] calls[i]).template
                    == package.templates_to_render()[i] && calls[i].context == context
        }),
{
}

/// A render hands a template of the package to the rendering engine
/// exactly where the template is no partial.
pub proof fn lemma_render_dispatch(package: GeneratorView, template: Seq<char>)
    ensures
        package.templates_to_render().contains(template) <==> package.templates.contains(template)
            && !is_partial(template),
{
    broadcast use vstd::seq_lib::group_to_multiset_ensures;

    let ordered = ordered_paths(package.templates);
    lemma_ordered_paths(ordered, package.templates);
    lemma_without_partials(ordered, template);
    assert(ordered.contains(template) <==> ordered.to_multiset().count(template) > 0);
}

/// What lies below a directory is named by a path that is not empty and
/// does not start at the root, and joining it to a directory `to` gives
/// a path that starts with `to`.
pub proof fn lemma_relative_lands_below(path: Seq<char>, base: Seq<char>, to: Seq<char>)
    requires
        relative_to(path, base) is Some,
    ensures
        relative_to(path, base)->0.len() > 0,
        relative_to(path, base)->0[0] != '/',
        to.is_prefix_of(joined(to, relative_to(path, base)->0)),
{
    let rest = path.skip(base.len() as int);
    lemma_without_leading_separators(rest);
    let below = relative_to(path, base)->0;
    assert(to =~= joined(to, below).subrange(0, to.len() as int));
}

/// Copies bring each file to a place below the directory they copy to:
/// there is one copy for each file, in order, from that file, to a path
/// that starts with `to`.
pub proof fn lemma_copies_land_below(files: Seq<Seq<char>>, from: Seq<char>, to: Seq<char>)
    requires
        planned_copies(files, from, to) is Ok,
    ensures
        planned_copies(files, from, to)->Ok_0.len() == files.len(),
        forall|i: int|
            0 <= i < files.len() ==> {
                let copy = #[trigger] planned_copies(files, from, to)->Ok_0[i];
                copy.source == files[i] && to.is_prefix_of(copy.target)
            },
    decreases files.len(),
{
    if files.len() > 0 {
        lemma_copies_land_below(files.drop_last(), from, to);
        lemma_relative_lands_below(files.last(), from, to);
    }
}

} // verus!
