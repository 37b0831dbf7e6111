//! The build pipeline: its settings, the work it hands out, and the order in
//! which it runs.

pub mod build_state;
pub mod build_style;
pub mod environment;
pub mod extractor;
pub mod fetcher;
pub mod hooks;
pub mod packager;
pub mod player;

use crate::definition::actions::{canonical_stages, Stage};
use crate::definition::{Recipe, RecipeView, Side, SideView};
use crate::engine::build_state::{BuildState, BuildStateView};
use crate::engine::environment::Environment;
use crate::engine::extractor::{extraction_of, Extraction, Extractor};
use crate::engine::fetcher::{
    fetch_error_text, FetchedArtifact, FetchedArtifactView, Fetcher, HobFetchError,
    HobFetchErrorView,
};
use crate::engine::hooks::{
    get_sorted_hooks, hooks_at, registered, select_hooks, stable_sorted, Hook, HookTrigger,
};
use crate::engine::packager::{Packager, PackagerBuilder};
use crate::engine::player::{Context, ContextView, Player};
use crate::paths;
use crate::text::{decimal, decimal_string};
use std::sync::Arc;
use vstd::prelude::*;

verus! {

/// How commands are confined to the build root.
#[derive(Debug, Copy, Clone, PartialEq, Eq, Structural)]
pub enum ChrootMethod {
    NoChroot,
    SystemChroot,
    _BubbleWrap,
    _Ethereal,
}

/// Where the engine keeps its files.
#[derive(Debug, PartialEq, Eq)]
pub struct EngineSettings {
    pub cache_path: String,
    pub source_path: String,
    pub root_path: String,
    pub dest_path: String,
    pub package_path: String,
    pub chroot_method: ChrootMethod,
}

pub struct EngineSettingsView {
    pub cache_path: Seq<char>,
    pub source_path: Seq<char>,
    pub root_path: Seq<char>,
    pub dest_path: Seq<char>,
    pub package_path: Seq<char>,
    pub chroot_method: ChrootMethod,
}

impl View for EngineSettings {
    type V = EngineSettingsView;

    open spec fn view(&self) -> EngineSettingsView {
        EngineSettingsView {
            cache_path: self.cache_path@,
            source_path: self.source_path@,
            root_path: self.root_path@,
            dest_path: self.dest_path@,
            package_path: self.package_path@,
            chroot_method: self.chroot_method,
        }
    }
}

impl EngineSettingsView {
    /// The settings that an engine has where it is given none.
    pub open spec fn standard() -> EngineSettingsView {
        EngineSettingsView {
            cache_path: "/tmp/hob/cache"@,
            source_path: ".hob/src"@,
            root_path: "/tmp/hob/root"@,
            dest_path: ".hob/dest"@,
            package_path: ".hob/pkg"@,
            chroot_method: ChrootMethod::SystemChroot,
        }
    }

    /// The directory that holds the install destinations.
    pub open spec fn dest(self) -> Seq<char> {
        paths::joined(self.root_path, self.dest_path)
    }

    /// The install destination of the package called `name`.
    pub open spec fn dest_for(self, name: Seq<char>) -> Seq<char> {
        paths::joined(self.dest(), name)
    }

    /// The directory that holds the sources.
    pub open spec fn source(self) -> Seq<char> {
        paths::joined(self.root_path, self.source_path)
    }

    /// The directory that holds the sources of the recipe called `name`.
    pub open spec fn source_for(self, name: Seq<char>) -> Seq<char> {
        paths::joined(self.source(), name)
    }

    /// The directory into which the sources of `recipe` unpack.
    pub open spec fn extracted_source_for(self, recipe: RecipeView) -> Seq<char> {
        paths::joined(self.source_for(recipe.name), recipe.source_dir)
    }

    /// The directory that holds the packages.
    pub open spec fn package(self) -> Seq<char> {
        paths::joined(self.root_path, self.package_path)
    }

    /// The directory that holds the packages made by `packager`.
    pub open spec fn package_for(self, packager: Seq<char>) -> Seq<char> {
        paths::joined(self.package(), packager)
    }
}

impl EngineSettings {
    /// The settings that an engine has where it is given none.
    pub fn standard() -> (r: EngineSettings)
        ensures
            r@ == EngineSettingsView::standard(),
    {
        EngineSettings {
            cache_path: String::from_str("/tmp/hob/cache"),
            source_path: String::from_str(".hob/src"),
            root_path: String::from_str("/tmp/hob/root"),
            dest_path: String::from_str(".hob/dest"),
            package_path: String::from_str(".hob/pkg"),
            chroot_method: ChrootMethod::SystemChroot,
        }
    }

    /// The build root.
    pub fn root_path(&self) -> (r: &str)
        ensures
            r@ == self@.root_path,
    {
        self.root_path.as_str()
    }

    /// The directory that holds the install destinations.
    pub fn dest_path(&self) -> (r: String)
        ensures
            r@ == self@.dest(),
    {
        paths::join(self.root_path.as_str(), self.dest_path.as_str())
    }

    /// The install destination of the recipe or side that `context` stands for.
    pub fn dest_path_for_context(&self, context: Context) -> (r: String)
        ensures
            r@ == self@.dest_for(context@.name()),
    {
        paths::join(self.dest_path().as_str(), context.name())
    }

    /// The install destination of `recipe`.
    pub fn dest_path_for_recipe(&self, recipe: &Recipe) -> (r: String)
        ensures
            r@ == self@.dest_for(recipe@.name),
    {
        paths::join(self.dest_path().as_str(), recipe.name.as_str())
    }

    /// The install destination of `side`.
    pub fn dest_path_for_side(&self, side: &Side) -> (r: String)
        ensures
            r@ == self@.dest_for(side@.name),
    {
        paths::join(self.dest_path().as_str(), side.name.as_str())
    }

    /// The directory that holds the sources.
    pub fn source_path(&self) -> (r: String)
        ensures
            r@ == self@.source(),
    {
        paths::join(self.root_path.as_str(), self.source_path.as_str())
    }

    /// The directory that holds the sources of `recipe`.
    pub fn source_path_for_recipe(&self, recipe: &Recipe) -> (r: String)
        ensures
            r@ == self@.source_for(recipe@.name),
    {
        paths::join(self.source_path().as_str(), recipe.name.as_str())
    }

    /// The directory into which the sources of `recipe` unpack.
    pub fn extracted_source_path_for_recipe(&self, recipe: &Recipe) -> (r: String)
        ensures
            r@ == self@.extracted_source_for(recipe@),
    {
        let dir = paths::join(self.source_path().as_str(), recipe.name.as_str());
        paths::join(dir.as_str(), recipe.source_dir.as_str())
    }

    /// The directory that holds the packages made by `packager`.
    pub fn package_path_for_packager(&self, packager: &str) -> (r: String)
        ensures
            r@ == self@.package_for(packager@),
    {
        paths::join(self.package_path().as_str(), packager)
    }

    /// The directory that holds the packages.
    pub fn package_path(&self) -> (r: String)
        ensures
            r@ == self@.package(),
    {
        paths::join(self.root_path.as_str(), self.package_path.as_str())
    }

    /// The directory that holds the fetched artifacts.
    pub fn cache_path(&self) -> (r: &str)
        ensures
            r@ == self@.cache_path,
    {
        self.cache_path.as_str()
    }
}

/// A program to run: its name, its arguments, and the directory it runs in,
/// which is that of the caller where none is given.
#[derive(Debug, PartialEq, Eq)]
pub struct Command {
    pub program: String,
    pub args: Vec<String>,
    pub current_dir: Option<String>,
}

pub struct CommandView {
    pub program: Seq<char>,
    pub args: Seq<Seq<char>>,
    pub current_dir: Option<Seq<char>>,
}

impl View for Command {
    type V = CommandView;

    open spec fn view(&self) -> CommandView {
        CommandView {
            program: self.program@,
            args: self.args.deep_view(),
            current_dir: self.current_dir.deep_view(),
        }
    }
}

/// One piece of work on the outside world that the engine asks for. Whoever
/// performs it stops the build at the first piece that fails.
#[derive(Debug, PartialEq, Eq)]
pub enum Operation {
    /// Run the command and wait for it. Where `failure` is given, any exit
    /// status but success ends the build with that text; otherwise the exit
    /// status is not looked at.
    Run { command: Command, failure: Option<&'static str> },
    /// Create the directory and all that lead to it.
    CreateDirAll { path: String },
    /// Copy the file `from` to `to`.
    Copy { from: String, to: String },
    /// Make `link` a symbolic link to `points_to`.
    Symlink { points_to: String, link: String },
    /// Remove what `path` names: a directory with all it holds, anything else,
    /// a symbolic link to a directory too, as a single file.
    Remove { path: String },
    /// Move `from` to `to`.
    Rename { from: String, to: String },
}

pub enum OperationView {
    Run { command: CommandView, failure: Option<Seq<char>> },
    CreateDirAll { path: Seq<char> },
    Copy { from: Seq<char>, to: Seq<char> },
    Symlink { points_to: Seq<char>, link: Seq<char> },
    Remove { path: Seq<char> },
    Rename { from: Seq<char>, to: Seq<char> },
}

impl View for Operation {
    type V = OperationView;

    open spec fn view(&self) -> OperationView {
        match self {
            Operation::Run { command, failure } => OperationView::Run {
                command: command@,
                failure: failure.deep_view(),
            },
            Operation::CreateDirAll { path } => OperationView::CreateDirAll { path: path@ },
            Operation::Copy { from, to } => OperationView::Copy { from: from@, to: to@ },
            Operation::Symlink { points_to, link } => OperationView::Symlink {
                points_to: points_to@,
                link: link@,
            },
            Operation::Remove { path } => OperationView::Remove { path: path@ },
            Operation::Rename { from, to } => OperationView::Rename { from: from@, to: to@ },
        }
    }
}

impl Operation {
    /// Whether what a `Remove` names is removed as a directory with all it
    /// holds: a directory is, a symbolic link to one is not.
    pub fn removes_tree(is_dir: bool, is_symlink: bool) -> (r: bool)
        ensures
            r == (is_dir && !is_symlink),
    {
        is_dir && !is_symlink
    }
}

impl DeepView for Operation {
    type V = OperationView;

    open spec fn deep_view(&self) -> OperationView {
        self@
    }
}

/// Work for the outside world, in the order in which it is done, and the
/// error with which the build ends once it is done, if it ends there.
#[derive(Debug, PartialEq, Eq)]
pub struct Plan {
    pub operations: Vec<Operation>,
    pub failure: Option<&'static str>,
}

pub struct PlanView {
    pub operations: Seq<OperationView>,
    pub failure: Option<Seq<char>>,
}

impl View for Plan {
    type V = PlanView;

    open spec fn view(&self) -> PlanView {
        PlanView { operations: self.operations.deep_view(), failure: self.failure.deep_view() }
    }
}

impl PlanView {
    /// No work and no error.
    pub open spec fn nothing() -> PlanView {
        PlanView { operations: Seq::empty(), failure: None }
    }

    /// This plan, and `next` after it unless this plan ends the build.
    pub open spec fn followed_by(self, next: PlanView) -> PlanView {
        if self.failure is Some {
            self
        } else {
            PlanView { operations: self.operations + next.operations, failure: next.failure }
        }
    }
}

/// Seen from outside, a list that was given an operation is the list it was
/// with the operation after it.
pub proof fn lemma_operations_push(before: Vec<Operation>, after: Vec<Operation>, op: Operation)
    requires
        after@ == before@.push(op),
    ensures
        after.deep_view() == before.deep_view().push(op@),
{
    assert(after.deep_view() =~= before.deep_view().push(op@));
}

/// The fetches of a recipe that failed.
#[derive(Debug, PartialEq, Eq)]
pub struct EngineError {
    pub errors: Vec<HobFetchError>,
}

impl View for EngineError {
    type V = Seq<HobFetchErrorView>;

    open spec fn view(&self) -> Seq<HobFetchErrorView> {
        self.errors.deep_view()
    }
}

/// The words for the errors `errors`, each after an empty line and a tab.
pub open spec fn errors_text(errors: Seq<HobFetchErrorView>) -> Seq<char>
    decreases errors.len(),
{
    if errors.len() == 0 {
        Seq::empty()
    } else {
        errors_text(errors.drop_last()) + "\n\n\t"@ + fetch_error_text(errors.last())
    }
}

/// The words for the failed fetches `errors`: how many there are, then each.
pub open spec fn engine_error_text(errors: Seq<HobFetchErrorView>) -> Seq<char> {
    "Encountered "@ + decimal(errors.len()) + " errors:"@ + errors_text(errors)
}

impl EngineError {
    /// The error in words.
    pub fn to_text(&self) -> (r: String)
        ensures
            r@ == engine_error_text(self@),
    {
        let mut r = String::from_str("Encountered ");
        r.append(decimal_string(self.errors.len() as u128).as_str());
        r.append(" errors:");
        let ghost head = r@;
        assert(self@.take(0) =~= Seq::empty());
        assert(r@ =~= head + errors_text(self@.take(0)));
        let mut i: usize = 0;
        while i < self.errors.len()
            invariant
                i <= self.errors.len(),
                r@ == head + errors_text(self@.take(i as int)),
            decreases self.errors.len() - i,
        {
            proof {
                let next = self@.take(i + 1);
                assert(next.drop_last() =~= self@.take(i as int));
                assert(next.last() == self.errors@[i as int]@);
            }
            let ghost sofar = r@;
            r.append("\n\n\t");
            r.append(self.errors[i].to_text().as_str());
            assert(r@ =~= head + errors_text(self@.take(i + 1)));
            i += 1;
        }
        proof {
            assert(self@.take(i as int) =~= self@);
        }
        r
    }
}

/// One step of the build of a recipe.
#[derive(Debug, Copy, Clone, PartialEq, Eq, Structural)]
pub enum Step {
    /// Run this hook.
    Hook(Hook),
    /// Do the work of this stage.
    Body(Stage),
}

/// The work of a stage.
#[derive(Debug, Copy, Clone, PartialEq, Eq, Structural)]
pub enum StageWork {
    /// Make the engine ready.
    Prepare,
    /// Play the playbook; the built-in behaviour fetches the artifacts.
    Fetch,
    /// Play the playbook; the built-in behaviour unpacks the artifacts.
    Extract,
    /// Play the playbook; the built-in behaviour is that of the build style.
    Build,
    /// Move the files that the sides claim to the sides.
    Split,
    /// Make the packages.
    Package,
}

/// The work of `stage`.
pub open spec fn work_of(stage: Stage) -> StageWork {
    match stage {
        Stage::Prepare => StageWork::Prepare,
        Stage::Fetch => StageWork::Fetch,
        Stage::Extract => StageWork::Extract,
        Stage::Split => StageWork::Split,
        Stage::Package => StageWork::Package,
        _ => StageWork::Build,
    }
}

/// The steps of one stage: the hooks that run before it, its work, and the
/// hooks that run after it.
pub open spec fn stage_steps(hooks: Seq<Hook>, stage: Stage) -> Seq<Step> {
    hooks_at(hooks, stage, HookTrigger::Before).map_values(|h: Hook| Step::Hook(h)) + seq![
        Step::Body(stage),
    ] + hooks_at(hooks, stage, HookTrigger::After).map_values(|h: Hook| Step::Hook(h))
}

/// The steps of the stages `stages`, one stage after another.
pub open spec fn schedule(hooks: Seq<Hook>, stages: Seq<Stage>) -> Seq<Step>
    decreases stages.len(),
{
    if stages.len() == 0 {
        Seq::empty()
    } else {
        schedule(hooks, stages.drop_last()) + stage_steps(hooks, stages.last())
    }
}

/// The stages whose work `steps` do, in order.
pub open spec fn bodies(steps: Seq<Step>) -> Seq<Stage>
    decreases steps.len(),
{
    if steps.len() == 0 {
        Seq::empty()
    } else {
        match steps.last() {
            Step::Body(stage) => bodies(steps.drop_last()).push(stage),
            Step::Hook(_) => bodies(steps.drop_last()),
        }
    }
}

/// The claims of a side: files that match `pattern` below `from` move to the
/// same place below `to`.
#[derive(Debug, PartialEq, Eq)]
pub struct SplitClaim {
    pub pattern: String,
    pub from: String,
    pub to: String,
}

pub struct SplitClaimView {
    pub pattern: Seq<char>,
    pub from: Seq<char>,
    pub to: Seq<char>,
}

impl View for SplitClaim {
    type V = SplitClaimView;

    open spec fn view(&self) -> SplitClaimView {
        SplitClaimView { pattern: self.pattern@, from: self.from@, to: self.to@ }
    }
}

impl DeepView for SplitClaim {
    type V = SplitClaimView;

    open spec fn deep_view(&self) -> SplitClaimView {
        self@
    }
}

/// The claims of `side`, in order.
pub open spec fn side_claims(settings: EngineSettingsView, recipe: RecipeView, side: SideView) -> Seq<
    SplitClaimView,
> {
    Seq::new(
        side.claims.len(),
        |i: int|
            SplitClaimView {
                pattern: side.claims[i],
                from: settings.dest_for(recipe.name),
                to: settings.dest_for(side.name),
            },
    )
}

/// The claims of the sides `sides`, side after side.
pub open spec fn all_claims(
    settings: EngineSettingsView,
    recipe: RecipeView,
    sides: Seq<SideView>,
) -> Seq<SplitClaimView>
    decreases sides.len(),
{
    if sides.len() == 0 {
        Seq::empty()
    } else {
        all_claims(settings, recipe, sides.drop_last()) + side_claims(
            settings,
            recipe,
            sides.last(),
        )
    }
}

/// The work that moves the file at `path` below `claim.from` to the same
/// place below `claim.to`: the directory that will hold it is made first.
pub open spec fn claim_moves(claim: SplitClaimView, path: Seq<char>) -> Seq<OperationView> {
    (match paths::parent_of(path) {
        Some(parent) => seq![OperationView::CreateDirAll { path: paths::joined(claim.to, parent) }],
        None => Seq::empty(),
    }) + seq![
        OperationView::Rename {
            from: paths::joined(claim.from, path),
            to: paths::joined(claim.to, path),
        },
    ]
}

/// What a build packages: the recipe, then each of its sides.
pub open spec fn package_contexts(recipe: RecipeView) -> Seq<ContextView> {
    seq![ContextView::Recipe(recipe)] + Seq::new(
        recipe.sides.len(),
        |i: int| ContextView::Side(recipe, recipe.sides[i]),
    )
}

/// The fetches of `results` that failed, in order.
pub open spec fn failed_fetches(
    results: Seq<Result<FetchedArtifactView, HobFetchErrorView>>,
) -> Seq<HobFetchErrorView>
    decreases results.len(),
{
    if results.len() == 0 {
        Seq::empty()
    } else {
        match results.last() {
            Ok(_) => failed_fetches(results.drop_last()),
            Err(e) => failed_fetches(results.drop_last()).push(e),
        }
    }
}

/// The artifacts that the fetches of `results` brought, in order.
pub open spec fn fetched_artifacts(
    results: Seq<Result<FetchedArtifactView, HobFetchErrorView>>,
) -> Seq<FetchedArtifactView>
    decreases results.len(),
{
    if results.len() == 0 {
        Seq::empty()
    } else {
        match results.last() {
            Ok(a) => fetched_artifacts(results.drop_last()).push(a),
            Err(_) => fetched_artifacts(results.drop_last()),
        }
    }
}

/// The results `results` as they are seen from outside.
pub open spec fn results_view(results: Seq<Result<FetchedArtifact, HobFetchError>>) -> Seq<
    Result<FetchedArtifactView, HobFetchErrorView>,
> {
    results.map_values(
        |r: Result<FetchedArtifact, HobFetchError>|
            match r {
                Ok(a) => Ok(a@),
                Err(e) => Err(e@),
            },
    )
}

/// The stages of a build do their work in the order in which the pipeline
/// runs them, whatever hooks there are.
pub proof fn lemma_stage_order(hooks: Seq<Hook>, stages: Seq<Stage>)
    ensures
        bodies(schedule(hooks, stages)) == stages,
    decreases stages.len(),
{
    if stages.len() == 0 {
        assert(stages =~= Seq::empty());
    } else {
        lemma_stage_order(hooks, stages.drop_last());
        let head = schedule(hooks, stages.drop_last());
        let before = hooks_at(hooks, stages.last(), HookTrigger::Before).map_values(
            |h: Hook| Step::Hook(h),
        );
        let after = hooks_at(hooks, stages.last(), HookTrigger::After).map_values(
            |h: Hook| Step::Hook(h),
        );
        lemma_bodies_of_hooks(head, before);
        lemma_bodies_push(head + before, Step::Body(stages.last()));
        assert((head + before).push(Step::Body(stages.last())) =~= head + before + seq![
            Step::Body(stages.last()),
        ]);
        lemma_bodies_of_hooks(head + before + seq![Step::Body(stages.last())], after);
        assert(head + before + seq![Step::Body(stages.last())] + after =~= head + (before + seq![
            Step::Body(stages.last()),
        ] + after));
        assert(stages.drop_last().push(stages.last()) =~= stages);
    }
}

/// Steps that run hooks do the work of no stage.
pub proof fn lemma_bodies_of_hooks(steps: Seq<Step>, hooks: Seq<Step>)
    requires
        forall|i: int| 0 <= i < hooks.len() ==> #[trigger] hooks[i] is Hook,
    ensures
        bodies(steps + hooks) == bodies(steps),
    decreases hooks.len(),
{
    if hooks.len() == 0 {
        assert(steps + hooks =~= steps);
    } else {
        let all = steps + hooks;
        assert(all.drop_last() =~= steps + hooks.drop_last());
        assert(all.last() == hooks.last());
        assert(hooks[hooks.len() - 1] is Hook);
        lemma_bodies_of_hooks(steps, hooks.drop_last());
    }
}

/// A step after others adds its stage to the stages whose work is done, where
/// it does the work of one.
pub proof fn lemma_bodies_push(steps: Seq<Step>, step: Step)
    ensures
        bodies(steps.push(step)) == match step {
            Step::Body(stage) => bodies(steps).push(stage),
            Step::Hook(_) => bodies(steps),
        },
{
    assert(steps.push(step).drop_last() =~= steps);
}

/// The engine: the parts that decide how a recipe is built, and the hooks in
/// the order in which they run.
pub struct Engine<P: Packager> {
    pub fetcher: Fetcher,
    pub extractor: Extractor,
    pub player: Player,
    pub environment: Environment,
    pub packager: P,
    pub settings: Arc<EngineSettings>,
    pub hooks: Vec<Hook>,
}

impl<P: Packager> Engine<P> {
    /// The engine's invariant: its parts have its settings, and its hooks are
    /// the hooks that the engine knows, sorted.
    pub open spec fn well_formed(&self) -> bool {
        &&& self.fetcher@ == self.settings@
        &&& self.extractor@ == self.settings@
        &&& self.player@ == self.settings@
        &&& self.environment@.settings == self.settings@
        &&& self.hooks@ == stable_sorted(registered())
    }

    /// The work that makes the engine ready: the cache directory is made.
    pub fn prepare_engine(&self) -> (r: Vec<Operation>)
        ensures
            r.deep_view() == seq![OperationView::CreateDirAll { path: self.settings@.cache_path }],
    {
        let mut r: Vec<Operation> = Vec::new();
        let ghost before = r;
        let op = Operation::CreateDirAll { path: String::from_str(self.settings.cache_path()) };
        r.push(op);
        proof {
            lemma_operations_push(before, r, op);
            assert(before.deep_view() =~= Seq::empty());
            assert(r.deep_view() =~= seq![op@]);
        }
        r
    }

    /// The hooks that run at `stage` and `trigger`, in the order in which
    /// they run.
    pub fn run_hooks(&self, stage: Stage, trigger: HookTrigger) -> (r: Vec<Hook>)
        ensures
            r@ == hooks_at(self.hooks@, stage, trigger),
    {
        select_hooks(&self.hooks, stage, trigger)
    }

    /// The work of `stage`.
    pub fn work_of(stage: Stage) -> (r: StageWork)
        ensures
            r == work_of(stage),
    {
        match stage {
            Stage::Prepare => StageWork::Prepare,
            Stage::Fetch => StageWork::Fetch,
            Stage::Extract => StageWork::Extract,
            Stage::Split => StageWork::Split,
            Stage::Package => StageWork::Package,
            _ => StageWork::Build,
        }
    }

    /// The steps of the build of a recipe: for every stage, in the order in
    /// which the pipeline runs them, the hooks before it, its work, and the
    /// hooks after it. The build ends at the first step that fails.
    pub fn build_recipe(&self) -> (r: Vec<Step>)
        ensures
            r@ == schedule(self.hooks@, canonical_stages()),
            bodies(r@) == canonical_stages(),
    {
        let stages = Stage::stages();
        let mut steps: Vec<Step> = Vec::new();
        assert(stages@.take(0) =~= Seq::empty());
        let mut i: usize = 0;
        while i < 8
            invariant
                i <= 8,
                stages@ == canonical_stages(),
                stages@.len() == 8,
                steps@ == schedule(self.hooks@, stages@.take(i as int)),
            decreases 8 - i,
        {
            let stage = stages[i];
            proof {
                let next = stages@.take(i + 1);
                assert(next.drop_last() =~= stages@.take(i as int));
                assert(next.last() == stage);
            }
            let ghost sofar = steps@;
            let before = self.run_hooks(stage, HookTrigger::Before);
            let mut k: usize = 0;
            while k < before.len()
                invariant
                    k <= before.len(),
                    steps@ == sofar + before@.take(k as int).map_values(|h: Hook| Step::Hook(h)),
                decreases before.len() - k,
            {
                steps.push(Step::Hook(before[k]));
                assert(steps@ =~= sofar + before@.take(k + 1).map_values(
                    |h: Hook| Step::Hook(h),
                ));
                k += 1;
            }
            assert(before@.take(k as int) =~= before@);
            steps.push(Step::Body(stage));
            let ghost middle = steps@;
            let after = self.run_hooks(stage, HookTrigger::After);
            let mut k: usize = 0;
            while k < after.len()
                invariant
                    k <= after.len(),
                    steps@ == middle + after@.take(k as int).map_values(|h: Hook| Step::Hook(h)),
                decreases after.len() - k,
            {
                steps.push(Step::Hook(after[k]));
                assert(steps@ =~= middle + after@.take(k + 1).map_values(
                    |h: Hook| Step::Hook(h),
                ));
                k += 1;
            }
            assert(after@.take(k as int) =~= after@);
            assert(steps@ =~= sofar + stage_steps(self.hooks@, stage));
            i += 1;
        }
        proof {
            assert(stages@.take(8) =~= stages@);
            lemma_stage_order(self.hooks@, canonical_stages());
        }
        steps
    }

    /// Takes in the results of the fetches of all artifacts. Where none
    /// failed, the artifacts are those of the build from now on; else the
    /// build fails with all the failures, and keeps the artifacts it had.
    pub fn fetch<'a>(
        state: &mut BuildState<'a>,
        results: Vec<Result<FetchedArtifact<'a>, HobFetchError>>,
    ) -> (r: Result<(), EngineError>)
        ensures
            r is Ok <==> failed_fetches(results_view(results@)).len() == 0,
            r is Ok ==> final(state)@ == (BuildStateView {
                artifacts: fetched_artifacts(results_view(results@)),
                ..old(state)@
            }),
            r matches Err(error) ==> error@ == failed_fetches(results_view(results@))
                && final(state)@ == old(state)@,
    {
        let ghost all = results_view(results@);
        let mut results = results;
        let mut errors: Vec<HobFetchError> = Vec::new();
        let mut ok: Vec<FetchedArtifact<'a>> = Vec::new();
        assert(errors.deep_view() =~= Seq::empty());
        assert(ok.deep_view() =~= Seq::empty());
        assert(all.take(0) =~= Seq::empty());
        let total = results.len();
        let mut i: usize = 0;
        while results.len() > 0
            invariant
                i + results@.len() == total,
                total == all.len(),
                results_view(results@) == all.skip(i as int),
                errors.deep_view() == failed_fetches(all.take(i as int)),
                ok.deep_view() == fetched_artifacts(all.take(i as int)),
            decreases results.len(),
        {
            let ghost held = results@;
            let item = results.remove(0);
            proof {
                let next = all.take(i + 1);
                assert(next.drop_last() =~= all.take(i as int));
                assert(results_view(held)[0] == all[i as int]);
                assert(next.last() == all[i as int]);
                assert(results_view(results@) =~= all.skip(i + 1)) by {
                    assert forall|k: int| 0 <= k < results@.len() implies results_view(
                        results@,
                    )[k] == all.skip(i + 1)[k] by {
                        assert(results@[k] == held[k + 1]);
                        assert(results_view(held)[k + 1] == all.skip(i as int)[k + 1]);
                    }
                }
            }
            match item {
                Ok(v) => {
                    let ghost before = ok;
                    ok.push(v);
                    assert(ok.deep_view() =~= before.deep_view().push(v@));
                },
                Err(e) => {
                    let ghost before = errors;
                    errors.push(e);
                    assert(errors.deep_view() =~= before.deep_view().push(e@));
                },
            }
            i += 1;
        }
        proof {
            assert(all.take(i as int) =~= all);
        }
        if errors.len() > 0 {
            return Err(EngineError { errors });
        }
        state.artifacts = ok;
        Ok(())
    }

    /// How the fetched artifacts of `state` are unpacked, one after another:
    /// each into the directory of the recipe's name in the source directory.
    pub fn extract(&self, state: &BuildState) -> (r: Vec<Extraction>)
        requires
            self.well_formed(),
        ensures
            r.deep_view() == Seq::new(
                state@.artifacts.len(),
                |i: int|
                    extraction_of(self.settings@, state@.artifacts[i].path, state@.recipe.name),
            ),
    {
        let mut r: Vec<Extraction> = Vec::new();
        let mut i: usize = 0;
        while i < state.artifacts.len()
            invariant
                i <= state.artifacts.len(),
                self.extractor@ == self.settings@,
                r.deep_view() == Seq::new(
                    i as nat,
                    |k: int|
                        extraction_of(
                            self.settings@,
                            state@.artifacts[k].path,
                            state@.recipe.name,
                        ),
                ),
            decreases state.artifacts.len() - i,
        {
            let item = self.extractor.extract(&state.artifacts[i], state.recipe.name.as_str());
            let ghost before = r;
            r.push(item);
            assert(r.deep_view() =~= before.deep_view().push(item@));
            assert(state@.artifacts[i as int] == state.artifacts@[i as int]@);
            assert(r.deep_view() =~= Seq::new(
                (i + 1) as nat,
                |k: int|
                    extraction_of(self.settings@, state@.artifacts[k].path, state@.recipe.name),
            ));
            i += 1;
        }
        r
    }

    /// The claims of the sides of `recipe`, side after side, each side's in
    /// order.
    pub fn split_claims(&self, recipe: &Recipe) -> (r: Vec<SplitClaim>)
        ensures
            r.deep_view() == all_claims(self.settings@, recipe@, recipe@.sides),
    {
        let dest = self.settings.dest_path_for_recipe(recipe);
        let mut r: Vec<SplitClaim> = Vec::new();
        assert(r.deep_view() =~= Seq::empty());
        assert(recipe@.sides.take(0) =~= Seq::empty());
        let mut i: usize = 0;
        while i < recipe.sides.len()
            invariant
                i <= recipe.sides.len(),
                dest@ == self.settings@.dest_for(recipe@.name),
                r.deep_view() == all_claims(self.settings@, recipe@, recipe@.sides.take(i as int)),
            decreases recipe.sides.len() - i,
        {
            let side = &recipe.sides[i];
            let side_path = self.settings.dest_path_for_side(side);
            proof {
                let next = recipe@.sides.take(i + 1);
                assert(next.drop_last() =~= recipe@.sides.take(i as int));
                assert(next.last() == side@);
            }
            let ghost sofar = r.deep_view();
            let mut k: usize = 0;
            while k < side.claims.len()
                invariant
                    k <= side.claims.len(),
                    dest@ == self.settings@.dest_for(recipe@.name),
                    side_path@ == self.settings@.dest_for(side@.name),
                    r.deep_view() == sofar + side_claims(self.settings@, recipe@, side@).take(
                        k as int,
                    ),
                decreases side.claims.len() - k,
            {
                let claim = SplitClaim {
                    pattern: side.claims[k].clone(),
                    from: dest.clone(),
                    to: side_path.clone(),
                };
                let ghost before = r;
                r.push(claim);
                assert(r.deep_view() =~= before.deep_view().push(claim@));
                assert(side@.claims[k as int] == side.claims@[k as int]@);
                assert(r.deep_view() =~= sofar + side_claims(self.settings@, recipe@, side@).take(
                    k + 1,
                ));
                k += 1;
            }
            proof {
                let claims = side_claims(self.settings@, recipe@, side@);
                assert(claims.take(k as int) =~= claims);
            }
            i += 1;
        }
        proof {
            assert(recipe@.sides.take(i as int) =~= recipe@.sides);
        }
        r
    }

    /// The work that moves the file at the relative path `path`, which
    /// matched `claim`, to the side.
    pub fn split_moves(claim: &SplitClaim, path: &str) -> (r: Vec<Operation>)
        ensures
            r.deep_view() == claim_moves(claim@, path@),
    {
        let mut r: Vec<Operation> = Vec::new();
        assert(r.deep_view() =~= Seq::empty());
        match paths::parent(path) {
            Some(parent) => {
                let ghost before = r;
                let op = Operation::CreateDirAll {
                    path: paths::join(claim.to.as_str(), parent.as_str()),
                };
                r.push(op);
                proof {
                    lemma_operations_push(before, r, op);
                }
            },
            None => {},
        }
        let ghost before = r;
        let op = Operation::Rename {
            from: paths::join(claim.from.as_str(), path),
            to: paths::join(claim.to.as_str(), path),
        };
        r.push(op);
        proof {
            lemma_operations_push(before, r, op);
            assert(r.deep_view() =~= claim_moves(claim@, path@));
        }
        r
    }

    /// What the build of `recipe` packages: the recipe, then each of its
    /// sides.
    pub fn package_contexts<'a>(recipe: &'a Recipe) -> (r: Vec<Context<'a>>)
        ensures
            r.deep_view() == package_contexts(recipe@),
    {
        let mut r: Vec<Context<'a>> = Vec::new();
        r.push(Context::Recipe(recipe));
        let ghost head = r.deep_view();
        assert(head =~= seq![ContextView::Recipe(recipe@)]);
        let mut i: usize = 0;
        while i < recipe.sides.len()
            invariant
                i <= recipe.sides.len(),
                r.deep_view() == head + Seq::new(
                    i as nat,
                    |k: int| ContextView::Side(recipe@, recipe@.sides[k]),
                ),
            decreases recipe.sides.len() - i,
        {
            let ghost before = r;
            let context = Context::Side(recipe, &recipe.sides[i]);
            r.push(context);
            assert(r.deep_view() =~= before.deep_view().push(context@));
            assert(recipe@.sides[i as int] == recipe.sides@[i as int]@);
            assert(r.deep_view() =~= head + Seq::new(
                (i + 1) as nat,
                |k: int| ContextView::Side(recipe@, recipe@.sides[k]),
            ));
            i += 1;
        }
        r
    }

    /// The work that makes the package of `context`: what the packager asks
    /// for.
    pub fn package(&self, state: &BuildState, context: Context) -> (r: Vec<Operation>)
        ensures
            r.deep_view() == self.packager.package_plan(state@.recipe, context@),
    {
        self.packager.build_package(state.recipe, context)
    }

    /// An engine with the settings that an engine has where it is given none.
    pub fn new<T: PackagerBuilder<Output = P>>() -> (r: Engine<P>)
        ensures
            r.well_formed(),
            r.settings@ == EngineSettingsView::standard(),
            r.environment@.bootstrap,
    {
        Self::from_settings::<T>(EngineSettings::standard())
    }

    /// An engine with the settings `settings`, and with the packager that `T`
    /// makes for them.
    pub fn from_settings<T: PackagerBuilder<Output = P>>(settings: EngineSettings) -> (r: Engine<P>)
        ensures
            r.well_formed(),
            r.settings@ == settings@,
            r.environment@.bootstrap,
    {
        let settings = Arc::new(settings);
        Engine {
            fetcher: Fetcher::new(settings.clone()),
            extractor: Extractor::new(settings.clone()),
            player: Player::new(settings.clone()),
            environment: Environment::new(settings.clone()),
            packager: T::build(settings.clone()),
            settings,
            hooks: get_sorted_hooks(),
        }
    }
}

} // verus!
