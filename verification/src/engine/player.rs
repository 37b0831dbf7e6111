//! Playing the playbook of a stage.

use crate::definition::actions::{Action, ActionView, CcActionView, LinkActionView, Stage};
use crate::definition::{Recipe, RecipeView, Side, SideView};
use crate::engine::build_state::BuildState;
use crate::engine::build_style::{build_style_of, get_build_style};
use crate::engine::environment::{Environment, EnvironmentView};
use crate::engine::{
    lemma_operations_push, ChrootMethod, EngineSettings, EngineSettingsView, Operation,
    OperationView, Plan, PlanView,
};
use crate::paths;
use crate::text::{
    after_last, all_digits, chars_of, concat, decimal, decimal_string, digits_from,
    extend_strings, extend_with_optional, find_last, lemma_last_index_bounds, or_empty,
    push_string, slice,
};
use std::sync::Arc;
use vstd::prelude::*;

verus! {

/// What is being built: a recipe, or one side of a recipe.
#[derive(Copy, Clone, Debug, PartialEq, Eq)]
pub enum Context<'a> {
    Recipe(&'a Recipe),
    Side(&'a Recipe, &'a Side),
}

pub enum ContextView {
    Recipe(RecipeView),
    Side(RecipeView, SideView),
}

impl<'a> View for Context<'a> {
    type V = ContextView;

    open spec fn view(&self) -> ContextView {
        match self {
            Context::Recipe(r) => ContextView::Recipe(r@),
            Context::Side(r, s) => ContextView::Side(r@, s@),
        }
    }
}

impl<'a> DeepView for Context<'a> {
    type V = ContextView;

    open spec fn deep_view(&self) -> ContextView {
        self@
    }
}

impl ContextView {
    /// The recipe that is being built.
    pub open spec fn recipe(self) -> RecipeView {
        match self {
            ContextView::Recipe(r) => r,
            ContextView::Side(r, _) => r,
        }
    }

    /// The name of the recipe.
    pub open spec fn origin(self) -> Seq<char> {
        self.recipe().name
    }

    /// The name of the package: that of the side where there is one.
    pub open spec fn name(self) -> Seq<char> {
        match self {
            ContextView::Recipe(r) => r.name,
            ContextView::Side(_, s) => s.name,
        }
    }

    /// The description of the package.
    pub open spec fn description(self) -> Seq<char> {
        match self {
            ContextView::Recipe(r) => r.description,
            ContextView::Side(_, s) => s.description,
        }
    }

    /// The packages that the package needs.
    pub open spec fn depends(self) -> Seq<Seq<char>> {
        match self {
            ContextView::Recipe(r) => r.depends,
            ContextView::Side(_, s) => s.depends,
        }
    }
}

impl<'a> Context<'a> {
    /// The recipe that is being built.
    pub fn recipe(&self) -> (r: &Recipe)
        ensures
            r@ == self@.recipe(),
    {
        match self {
            Context::Recipe(r) => r,
            Context::Side(r, _) => r,
        }
    }

    /// The name of the recipe.
    pub fn origin(&self) -> (r: &str)
        ensures
            r@ == self@.origin(),
    {
        self.recipe().name.as_str()
    }

    /// The name of the package: that of the side where there is one.
    pub fn name(&self) -> (r: &str)
        ensures
            r@ == self@.name(),
    {
        match self {
            Context::Recipe(r) => r.name.as_str(),
            Context::Side(_, s) => s.name.as_str(),
        }
    }

    /// The description of the package.
    pub fn description(&self) -> (r: &str)
        ensures
            r@ == self@.description(),
    {
        match self {
            Context::Recipe(r) => r.description.as_str(),
            Context::Side(_, s) => s.description.as_str(),
        }
    }

    /// The packages that the package needs.
    pub fn depends(&self) -> (r: &Vec<String>)
        ensures
            r.deep_view() == self@.depends(),
    {
        match self {
            Context::Recipe(r) => &r.depends,
            Context::Side(_, s) => &s.depends,
        }
    }
}


/// Plays playbooks: turns the actions of a stage into work for the outside
/// world.
#[derive(Debug, PartialEq, Eq)]
pub struct Player {
    pub settings: Arc<EngineSettings>,
}

impl View for Player {
    type V = EngineSettingsView;

    open spec fn view(&self) -> EngineSettingsView {
        self.settings@
    }
}

/// The operation that runs `program` with `args` for `recipe` and ends the
/// build with `failure` unless the program succeeds.
pub open spec fn run_op(
    env: EnvironmentView,
    recipe: RecipeView,
    program: Seq<char>,
    args: Seq<Seq<char>>,
    failure: Seq<char>,
) -> OperationView {
    OperationView::Run { command: env.command(recipe, program, args), failure: Some(failure) }
}

/// A plan of one operation.
pub open spec fn single(op: OperationView) -> PlanView {
    PlanView { operations: seq![op], failure: None }
}

/// A plan that ends the build at once.
pub open spec fn failing(message: Seq<char>) -> PlanView {
    PlanView { operations: Seq::empty(), failure: Some(message) }
}

/// The text of an optional setting, or `default` where it is unset.
pub open spec fn or_default(value: Option<Seq<char>>, default: Seq<char>) -> Seq<char> {
    match value {
        Some(v) => v,
        None => default,
    }
}

/// Compile: `gcc -o <output> <cc flags> <inputs>`.
pub open spec fn cc_plan(env: EnvironmentView, recipe: RecipeView, cc: CcActionView) -> PlanView {
    single(
        run_op(
            env,
            recipe,
            "gcc"@,
            seq!["-o"@, cc.output] + or_empty(recipe.style.vars.cc_flags) + cc.input,
            "cc failed"@,
        ),
    )
}

/// Make: the make command with one job more than the host has processors,
/// then the make arguments.
pub open spec fn make_plan(env: EnvironmentView, recipe: RecipeView) -> PlanView {
    single(
        run_op(
            env,
            recipe,
            or_default(recipe.style.vars.make_command, "make"@),
            seq!["-j"@ + decimal(env.cpus + 1)] + or_empty(recipe.style.vars.make_args),
            "make failed"@,
        ),
    )
}

/// Make install: the make command with the make arguments, the recipe's
/// install destination as `DESTDIR`, and the target `install`.
pub open spec fn make_install_plan(
    settings: EngineSettingsView,
    env: EnvironmentView,
    recipe: RecipeView,
) -> PlanView {
    single(
        run_op(
            env,
            recipe,
            or_default(recipe.style.vars.make_command, "make"@),
            or_empty(recipe.style.vars.make_args) + seq![
                "DESTDIR="@ + settings.dest_for(recipe.name),
                "install"@,
            ],
            "make install failed"@,
        ),
    )
}

/// Configure: the configure script with the prefix `/usr`, then the configure
/// arguments.
pub open spec fn configure_plan(env: EnvironmentView, recipe: RecipeView) -> PlanView {
    single(
        run_op(
            env,
            recipe,
            or_default(recipe.style.vars.configure_script, "./configure"@),
            seq!["--prefix=/usr"@] + or_empty(recipe.style.vars.configure_args),
            "configure failed"@,
        ),
    )
}

/// The copy that installs the program `item`.
pub open spec fn bin_copy(settings: EngineSettingsView, recipe: RecipeView, item: Seq<char>) -> OperationView {
    OperationView::Copy {
        from: paths::joined(settings.source_for(recipe.name), item),
        to: paths::joined(paths::joined(settings.dest_for(recipe.name), "bin"@), item),
    }
}

/// Bin: make the directory `path` in the destination, then copy each program
/// from the recipe's sources into the directory `bin` of the destination.
pub open spec fn bin_plan(
    settings: EngineSettingsView,
    recipe: RecipeView,
    binaries: Seq<Seq<char>>,
) -> PlanView {
    PlanView {
        operations: seq![
            OperationView::CreateDirAll {
                path: paths::joined(settings.dest_for(recipe.name), "path"@),
            },
        ] + Seq::new(binaries.len(), |i: int| bin_copy(settings, recipe, binaries[i])),
        failure: None,
    }
}

/// The section of the manual page `item`: what follows its last dot.
pub open spec fn man_section(item: Seq<char>) -> Seq<char> {
    after_last(item, '.')
}

/// The directory of the manual pages of the section of `item`.
pub open spec fn man_dir(settings: EngineSettingsView, recipe: RecipeView, item: Seq<char>) -> Seq<char> {
    paths::joined(
        paths::joined(settings.dest_for(recipe.name), "usr/share/man"@),
        "man"@ + man_section(item),
    )
}

/// What one manual page asks for: its section must be all decimal digits;
/// then its directory is made and the page copied there.
pub open spec fn man_item_plan(settings: EngineSettingsView, recipe: RecipeView, item: Seq<char>) -> PlanView {
    if all_digits(man_section(item)) {
        PlanView {
            operations: seq![
                OperationView::CreateDirAll { path: man_dir(settings, recipe, item) },
                OperationView::Copy {
                    from: paths::joined(settings.source_for(recipe.name), item),
                    to: paths::joined(man_dir(settings, recipe, item), item),
                },
            ],
            failure: None,
        }
    } else {
        failing("invalid man file, should end with .<digit>"@)
    }
}

/// Man: the manual pages one after another, up to the first that is refused.
pub open spec fn man_plan(
    settings: EngineSettingsView,
    recipe: RecipeView,
    items: Seq<Seq<char>>,
) -> PlanView
    decreases items.len(),
{
    if items.len() == 0 {
        PlanView::nothing()
    } else {
        man_plan(settings, recipe, items.drop_last()).followed_by(
            man_item_plan(settings, recipe, items.last()),
        )
    }
}

/// Link: for each source, a symbolic link to it at the target in the
/// destination.
pub open spec fn link_plan(
    settings: EngineSettingsView,
    recipe: RecipeView,
    link: LinkActionView,
) -> PlanView {
    PlanView {
        operations: Seq::new(
            link.source.len(),
            |i: int|
                OperationView::Symlink {
                    points_to: link.source[i],
                    link: paths::joined(settings.dest_for(recipe.name), link.target),
                },
        ),
        failure: None,
    }
}

/// Rm: remove each target from the destination.
pub open spec fn rm_plan(
    settings: EngineSettingsView,
    recipe: RecipeView,
    targets: Seq<Seq<char>>,
) -> PlanView {
    PlanView {
        operations: Seq::new(
            targets.len(),
            |i: int|
                OperationView::Remove {
                    path: paths::joined(settings.dest_for(recipe.name), targets[i]),
                },
        ),
        failure: None,
    }
}

/// Dir: create each target in the destination.
pub open spec fn dir_plan(
    settings: EngineSettingsView,
    recipe: RecipeView,
    targets: Seq<Seq<char>>,
) -> PlanView {
    PlanView {
        operations: Seq::new(
            targets.len(),
            |i: int|
                OperationView::CreateDirAll {
                    path: paths::joined(settings.dest_for(recipe.name), targets[i]),
                },
        ),
        failure: None,
    }
}

/// What `action` asks of the outside world. `Default` is no action of its own.
pub open spec fn action_plan(
    settings: EngineSettingsView,
    env: EnvironmentView,
    recipe: RecipeView,
    action: ActionView,
) -> PlanView {
    match action {
        ActionView::Default => PlanView::nothing(),
        ActionView::Cc(cc) => cc_plan(env, recipe, cc),
        ActionView::Configure => configure_plan(env, recipe),
        ActionView::Make => make_plan(env, recipe),
        ActionView::MakeInstall => make_install_plan(settings, env, recipe),
        ActionView::Bin(binaries) => bin_plan(settings, recipe, binaries),
        ActionView::Man(items) => man_plan(settings, recipe, items),
        ActionView::Link(link) => link_plan(settings, recipe, link),
        ActionView::Rm(targets) => rm_plan(settings, recipe, targets),
        ActionView::Dir(targets) => dir_plan(settings, recipe, targets),
    }
}

/// `action` can be carried out for `context` in `env`: installing programs and
/// manual pages is defined for a recipe only, and commands cannot be confined
/// by a method that is not there yet.
pub open spec fn action_allowed(action: ActionView, context: ContextView, env: EnvironmentView) -> bool {
    match action {
        ActionView::Bin(_) | ActionView::Man(_) => context is Recipe,
        ActionView::Cc(_) | ActionView::Configure | ActionView::Make | ActionView::MakeInstall =>
            env.confinement() != ChrootMethod::_BubbleWrap,
        _ => true,
    }
}

/// Every action of `actions` can be carried out.
pub open spec fn actions_allowed(
    actions: Seq<ActionView>,
    context: ContextView,
    env: EnvironmentView,
) -> bool {
    forall|i: int| 0 <= i < actions.len() ==> action_allowed(#[trigger] actions[i], context, env)
}

/// The actions of `actions` one after another, up to the first that ends the
/// build.
pub open spec fn sequence_plan(
    settings: EngineSettingsView,
    env: EnvironmentView,
    recipe: RecipeView,
    actions: Seq<ActionView>,
) -> PlanView
    decreases actions.len(),
{
    if actions.len() == 0 {
        PlanView::nothing()
    } else {
        sequence_plan(settings, env, recipe, actions.drop_last()).followed_by(
            action_plan(settings, env, recipe, actions.last()),
        )
    }
}

/// The place of the first `Default` in `actions`, or their number where there
/// is none.
pub open spec fn first_default(actions: Seq<ActionView>) -> int
    decreases actions.len(),
{
    if actions.len() == 0 {
        0
    } else if actions[0] is Default {
        0
    } else {
        1 + first_default(actions.drop_first())
    }
}

/// How many of `actions` are `Default`.
pub open spec fn count_defaults(actions: Seq<ActionView>) -> nat
    decreases actions.len(),
{
    if actions.len() == 0 {
        0
    } else {
        count_defaults(actions.drop_last()) + if actions.last() is Default {
            1nat
        } else {
            0nat
        }
    }
}

/// The actions that are played at `stage`: those of the recipe's playbook for
/// it, or the built-in behaviour alone where the recipe has none.
pub open spec fn playbook_actions(recipe: RecipeView, stage: Stage) -> Seq<ActionView> {
    match recipe.playbook(stage) {
        Some(playbook) => playbook.actions,
        None => seq![ActionView::Default],
    }
}

/// What playing a playbook comes to: the work before the built-in behaviour,
/// whether the built-in behaviour runs, the work after it, and the error with
/// which the build ends after all of that, if it ends there. Where
/// `found_default` is false there is no work after, and an error ends the
/// build after the work before.
#[derive(Debug, PartialEq, Eq)]
pub struct PlayScript {
    pub before: Vec<Operation>,
    pub found_default: bool,
    pub after: Vec<Operation>,
    pub failure: Option<&'static str>,
}

pub struct PlayScriptView {
    pub before: Seq<OperationView>,
    pub found_default: bool,
    pub after: Seq<OperationView>,
    pub failure: Option<Seq<char>>,
}

impl View for PlayScript {
    type V = PlayScriptView;

    open spec fn view(&self) -> PlayScriptView {
        PlayScriptView {
            before: self.before.deep_view(),
            found_default: self.found_default,
            after: self.after.deep_view(),
            failure: self.failure.deep_view(),
        }
    }
}

/// What playing `actions` comes to. The actions before the first `Default`
/// run in order; if one of them ends the build, nothing else happens. At the
/// first `Default` the built-in behaviour runs, then the actions after it, in
/// order, up to one that ends the build or up to a second `Default`, which
/// ends the build too.
pub open spec fn script_of(
    settings: EngineSettingsView,
    env: EnvironmentView,
    recipe: RecipeView,
    actions: Seq<ActionView>,
) -> PlayScriptView {
    let d = first_default(actions);
    let before = sequence_plan(settings, env, recipe, actions.take(d));
    if before.failure is Some || d >= actions.len() {
        PlayScriptView {
            before: before.operations,
            found_default: false,
            after: Seq::empty(),
            failure: before.failure,
        }
    } else {
        let rest = actions.skip(d + 1);
        let e = first_default(rest);
        let after = sequence_plan(settings, env, recipe, rest.take(e));
        PlayScriptView {
            before: before.operations,
            found_default: true,
            after: after.operations,
            failure: if after.failure is Some {
                after.failure
            } else if e < rest.len() {
                Some(".default called twice"@)
            } else {
                None
            },
        }
    }
}

/// The built-in behaviour of a build stage: the actions of the recipe's build
/// style for it. Any other stage has none, which ends the build.
pub open spec fn default_build_plan(
    settings: EngineSettingsView,
    env: EnvironmentView,
    recipe: RecipeView,
    stage: Stage,
) -> PlanView {
    match build_style_of(recipe.style.style).actions_for(stage) {
        Some(actions) => sequence_plan(settings, env, recipe, actions),
        None => failing("Not part of build stages"@),
    }
}

/// All the work of a build stage: the script of its playbook with the
/// built-in behaviour of the recipe's build style put in its place.
pub open spec fn build_stage_plan(
    settings: EngineSettingsView,
    env: EnvironmentView,
    recipe: RecipeView,
    stage: Stage,
) -> PlanView {
    let script = script_of(settings, env, recipe, playbook_actions(recipe, stage));
    if !script.found_default {
        PlanView { operations: script.before, failure: script.failure }
    } else {
        PlanView { operations: script.before, failure: None }.followed_by(
            default_build_plan(settings, env, recipe, stage),
        ).followed_by(PlanView { operations: script.after, failure: script.failure })
    }
}

/// The place of the first `Default` lies within the list or at its end; the
/// action there is `Default`, and none before it is.
pub proof fn lemma_first_default(actions: Seq<ActionView>)
    ensures
        0 <= first_default(actions) <= actions.len(),
        first_default(actions) < actions.len() ==> actions[first_default(actions)] is Default,
        forall|i: int| 0 <= i < first_default(actions) ==> !(#[trigger] actions[i] is Default),
    decreases actions.len(),
{
    if actions.len() > 0 && !(actions[0] is Default) {
        let rest = actions.drop_first();
        lemma_first_default(rest);
        assert forall|i: int| 0 <= i < first_default(actions) implies !(
        #[trigger] actions[i] is Default) by {
            if i > 0 {
                assert(rest[i - 1] == actions[i]);
            }
        }
    }
}

/// The first `Default` is at the only place that holds one with none before
/// it.
pub proof fn lemma_first_default_unique(actions: Seq<ActionView>, k: int)
    requires
        0 <= k <= actions.len(),
        k < actions.len() ==> actions[k] is Default,
        forall|i: int| 0 <= i < k ==> !(#[trigger] actions[i] is Default),
    ensures
        first_default(actions) == k,
{
    lemma_first_default(actions);
    let j = first_default(actions);
    if j < k {
        assert(!(actions[j] is Default));
    }
    if k < j {
        assert(!(actions[k] is Default));
    }
}

fn push_operation(ops: &mut Vec<Operation>, op: Operation)
    ensures
        final(ops).deep_view() == old(ops).deep_view().push(op@),
{
    let ghost before = *ops;
    ops.push(op);
    proof {
        lemma_operations_push(before, *ops, op);
    }
}

/// Puts `next` after `total`.
fn extend_plan(total: &mut Plan, next: Plan)
    requires
        old(total)@.failure is None,
    ensures
        final(total)@ == old(total)@.followed_by(next@),
{
    let mut next = next;
    let ghost first = total.operations;
    let ghost second = next.operations;
    total.operations.append(&mut next.operations);
    total.failure = next.failure;
    proof {
        assert(total.operations.deep_view() =~= first.deep_view() + second.deep_view());
    }
}

fn empty_plan() -> (r: Plan)
    ensures
        r@ == PlanView::nothing(),
{
    let r = Plan { operations: Vec::new(), failure: None };
    assert(r.operations.deep_view() =~= Seq::empty());
    r
}

fn single_plan(op: Operation) -> (r: Plan)
    ensures
        r@ == single(op@),
{
    let mut operations: Vec<Operation> = Vec::new();
    assert(operations.deep_view() =~= Seq::empty());
    push_operation(&mut operations, op);
    assert(operations.deep_view() =~= seq![op@]);
    Plan { operations, failure: None }
}

fn setting_or<'a>(value: &'a Option<String>, default: &'a str) -> (r: &'a str)
    ensures
        r@ == or_default(value.deep_view(), default@),
{
    match value {
        Some(v) => v.as_str(),
        None => default,
    }
}

impl Player {
    /// A player with the settings `settings`.
    pub fn new(settings: Arc<EngineSettings>) -> (r: Player)
        ensures
            r@ == settings@,
    {
        Player { settings }
    }

    fn run(
        environment: &Environment,
        recipe: &Recipe,
        program: &str,
        args: &Vec<String>,
        failure: &'static str,
    ) -> (r: Plan)
        requires
            environment@.confinement() != ChrootMethod::_BubbleWrap,
        ensures
            r@ == single(run_op(environment@, recipe@, program@, args.deep_view(), failure@)),
    {
        let command = environment.command(recipe, program, args);
        single_plan(Operation::Run { command, failure: Some(failure) })
    }

    fn man(&self, recipe: &Recipe, items: &Vec<String>) -> (r: Plan)
        ensures
            r@ == man_plan(self@, recipe@, items.deep_view()),
    {
        let dest_path = self.settings.dest_path_for_recipe(recipe);
        let src = self.settings.source_path_for_recipe(recipe);
        let mut plan = empty_plan();
        let mut i: usize = 0;
        while i < items.len()
            invariant
                i <= items.len(),
                dest_path@ == self@.dest_for(recipe@.name),
                src@ == self@.source_for(recipe@.name),
                plan@.failure is None,
                plan@ == man_plan(self@, recipe@, items.deep_view().take(i as int)),
            decreases items.len() - i,
        {
            let item = items[i].as_str();
            proof {
                let next = items.deep_view().take(i + 1);
                assert(next.drop_last() =~= items.deep_view().take(i as int));
                assert(next.last() == item@);
            }
            let chars = chars_of(item);
            proof {
                lemma_last_index_bounds(chars@, '.');
            }
            let start: usize = match find_last(&chars, '.') {
                Some(k) => k + 1,
                None => 0,
            };
            if !digits_from(&chars, start) {
                plan.failure = Some("invalid man file, should end with .<digit>");
                proof {
                    assert(plan@ == man_plan(self@, recipe@, items.deep_view().take(i + 1)));
                    lemma_man_plan_stays_failed(self@, recipe@, items.deep_view(), i + 1);
                }
                return plan;
            }
            let ext = slice(item, start, chars.len());
            let group = concat("man", ext.as_str());
            let base = paths::join(dest_path.as_str(), "usr/share/man");
            let dir = paths::join(base.as_str(), group.as_str());
            let to = paths::join(dir.as_str(), item);
            let from = paths::join(src.as_str(), item);
            let ghost before = plan.operations.deep_view();
            push_operation(&mut plan.operations, Operation::CreateDirAll { path: dir });
            push_operation(&mut plan.operations, Operation::Copy { from, to });
            proof {
                let step = man_item_plan(self@, recipe@, item@);
                assert(plan.operations.deep_view() =~= before + step.operations);
            }
            i += 1;
        }
        proof {
            assert(items.deep_view().take(items.len() as int) =~= items.deep_view());
        }
        plan
    }

    /// What `action` asks of the outside world. `state` is the state of the
    /// build that the action belongs to.
    pub fn execute_action(
        &self,
        state: &BuildState,
        context: Context,
        environment: &Environment,
        action: &Action,
    ) -> (plan: Plan)
        requires
            !(action@ is Default),
            action_allowed(action@, context@, environment@),
        ensures
            plan@ == action_plan(self@, environment@, state@.recipe, action@),
    {
        let recipe = state.recipe;
        match action {
            Action::Default => empty_plan(),
            Action::Cc(cc) => {
                let mut cc_args: Vec<String> = Vec::new();
                assert(cc_args.deep_view() =~= Seq::empty());
                push_string(&mut cc_args, String::from_str("-o"));
                push_string(&mut cc_args, cc.output.clone());
                assert(cc_args.deep_view() =~= seq!["-o"@, cc@.output]);
                extend_with_optional(&mut cc_args, &recipe.style.vars.cc_flags);
                extend_strings(&mut cc_args, &cc.input);
                Self::run(environment, recipe, "gcc", &cc_args, "cc failed")
            },
            Action::Make => {
                let make_cmd = setting_or(&recipe.style.vars.make_command, "make");
                let jobs = concat("-j", decimal_string(environment.cpus as u128 + 1).as_str());
                let mut make_args: Vec<String> = Vec::new();
                assert(make_args.deep_view() =~= Seq::empty());
                push_string(&mut make_args, jobs);
                assert(make_args.deep_view() =~= seq!["-j"@ + decimal(environment@.cpus + 1)]);
                extend_with_optional(&mut make_args, &recipe.style.vars.make_args);
                Self::run(environment, recipe, make_cmd, &make_args, "make failed")
            },
            Action::MakeInstall => {
                let make_cmd = setting_or(&recipe.style.vars.make_command, "make");
                let mut make_args: Vec<String> = Vec::new();
                assert(make_args.deep_view() =~= Seq::empty());
                extend_with_optional(&mut make_args, &recipe.style.vars.make_args);
                let dest = self.settings.dest_path_for_recipe(recipe);
                let ghost flags = make_args.deep_view();
                push_string(&mut make_args, concat("DESTDIR=", dest.as_str()));
                push_string(&mut make_args, String::from_str("install"));
                assert(make_args.deep_view() =~= or_empty(recipe@.style.vars.make_args) + seq![
                    "DESTDIR="@ + self@.dest_for(recipe@.name),
                    "install"@,
                ]);
                Self::run(environment, recipe, make_cmd, &make_args, "make install failed")
            },
            Action::Bin(bin) => {
                let dest_path = self.settings.dest_path_for_recipe(recipe);
                let src = self.settings.source_path_for_recipe(recipe);
                let mut plan = single_plan(
                    Operation::CreateDirAll { path: paths::join(dest_path.as_str(), "path") },
                );
                let ghost head = plan.operations.deep_view();
                let ghost items = bin@;
                let mut i: usize = 0;
                while i < bin.binaries.len()
                    invariant
                        i <= bin.binaries.len(),
                        items == bin.binaries.deep_view(),
                        dest_path@ == self@.dest_for(recipe@.name),
                        src@ == self@.source_for(recipe@.name),
                        plan.failure is None,
                        plan.operations.deep_view() == head + Seq::new(
                            i as nat,
                            |k: int| bin_copy(self@, recipe@, items[k]),
                        ),
                    decreases bin.binaries.len() - i,
                {
                    let item = bin.binaries[i].as_str();
                    let from = paths::join(src.as_str(), item);
                    let dir = paths::join(dest_path.as_str(), "bin");
                    let to = paths::join(dir.as_str(), item);
                    push_operation(&mut plan.operations, Operation::Copy { from, to });
                    assert(plan.operations.deep_view() =~= head + Seq::new(
                        (i + 1) as nat,
                        |k: int| bin_copy(self@, recipe@, items[k]),
                    ));
                    i += 1;
                }
                plan
            },
            Action::Man(man) => self.man(recipe, &man.man_files),
            Action::Link(link) => {
                let dest_path = self.settings.dest_path_for_recipe(recipe);
                let mut plan = empty_plan();
                let ghost l = link@;
                let mut i: usize = 0;
                while i < link.source.len()
                    invariant
                        i <= link.source.len(),
                        l == link@,
                        dest_path@ == self@.dest_for(recipe@.name),
                        plan.failure is None,
                        plan.operations.deep_view() == Seq::new(
                            i as nat,
                            |k: int|
                                OperationView::Symlink {
                                    points_to: l.source[k],
                                    link: paths::joined(self@.dest_for(recipe@.name), l.target),
                                },
                        ),
                    decreases link.source.len() - i,
                {
                    let points_to = link.source[i].clone();
                    let at = paths::join(dest_path.as_str(), link.target.as_str());
                    push_operation(&mut plan.operations, Operation::Symlink { points_to, link: at });
                    assert(plan.operations.deep_view() =~= Seq::new(
                        (i + 1) as nat,
                        |k: int|
                            OperationView::Symlink {
                                points_to: l.source[k],
                                link: paths::joined(self@.dest_for(recipe@.name), l.target),
                            },
                    ));
                    i += 1;
                }
                assert(plan@.operations =~= link_plan(self@, recipe@, l).operations);
                plan
            },
            Action::Rm(rm) => {
                let dest_path = self.settings.dest_path_for_recipe(recipe);
                let mut plan = empty_plan();
                let ghost targets = rm@;
                let mut i: usize = 0;
                while i < rm.targets.len()
                    invariant
                        i <= rm.targets.len(),
                        targets == rm.targets.deep_view(),
                        dest_path@ == self@.dest_for(recipe@.name),
                        plan.failure is None,
                        plan.operations.deep_view() == Seq::new(
                            i as nat,
                            |k: int|
                                OperationView::Remove {
                                    path: paths::joined(self@.dest_for(recipe@.name), targets[k]),
                                },
                        ),
                    decreases rm.targets.len() - i,
                {
                    let path = paths::join(dest_path.as_str(), rm.targets[i].as_str());
                    push_operation(&mut plan.operations, Operation::Remove { path });
                    assert(plan.operations.deep_view() =~= Seq::new(
                        (i + 1) as nat,
                        |k: int|
                            OperationView::Remove {
                                path: paths::joined(self@.dest_for(recipe@.name), targets[k]),
                            },
                    ));
                    i += 1;
                }
                assert(plan@.operations =~= rm_plan(self@, recipe@, targets).operations);
                plan
            },
            Action::Dir(dir) => {
                let dest_path = self.settings.dest_path_for_recipe(recipe);
                let mut plan = empty_plan();
                let ghost targets = dir@;
                let mut i: usize = 0;
                while i < dir.targets.len()
                    invariant
                        i <= dir.targets.len(),
                        targets == dir.targets.deep_view(),
                        dest_path@ == self@.dest_for(recipe@.name),
                        plan.failure is None,
                        plan.operations.deep_view() == Seq::new(
                            i as nat,
                            |k: int|
                                OperationView::CreateDirAll {
                                    path: paths::joined(self@.dest_for(recipe@.name), targets[k]),
                                },
                        ),
                    decreases dir.targets.len() - i,
                {
                    let path = paths::join(dest_path.as_str(), dir.targets[i].as_str());
                    push_operation(&mut plan.operations, Operation::CreateDirAll { path });
                    assert(plan.operations.deep_view() =~= Seq::new(
                        (i + 1) as nat,
                        |k: int|
                            OperationView::CreateDirAll {
                                path: paths::joined(self@.dest_for(recipe@.name), targets[k]),
                            },
                    ));
                    i += 1;
                }
                assert(plan@.operations =~= dir_plan(self@, recipe@, targets).operations);
                plan
            },
            Action::Configure => {
                let script = setting_or(&recipe.style.vars.configure_script, "./configure");
                let mut configure_args: Vec<String> = Vec::new();
                assert(configure_args.deep_view() =~= Seq::empty());
                push_string(&mut configure_args, String::from_str("--prefix=/usr"));
                assert(configure_args.deep_view() =~= seq!["--prefix=/usr"@]);
                extend_with_optional(&mut configure_args, &recipe.style.vars.configure_args);
                Self::run(environment, recipe, script, &configure_args, "configure failed")
            },
        }
    }

    /// The actions of `actions` from place `from` on, one after another, up to
    /// the first that ends the build or the first `Default`. Gives the plan and
    /// the place where it stopped: that of the `Default`, or the number of
    /// actions.
    fn run_until_default(
        &self,
        state: &BuildState,
        context: Context,
        environment: &Environment,
        actions: &Vec<Action>,
        from: usize,
    ) -> (r: (Plan, usize))
        requires
            from <= actions.len(),
            actions_allowed(actions.deep_view(), context@, environment@),
        ensures
            ({
                let rest = actions.deep_view().skip(from as int);
                let d = first_default(rest);
                &&& r.0@ == sequence_plan(self@, environment@, state@.recipe, rest.take(d))
                &&& r.0@.failure is None ==> r.1 == from + d
                &&& from <= r.1 <= actions.len()
            }),
    {
        let ghost rest = actions.deep_view().skip(from as int);
        let mut plan = empty_plan();
        let mut i: usize = from;
        proof {
            lemma_first_default(rest);
        }
        while i < actions.len()
            invariant
                from <= i <= actions.len(),
                rest == actions.deep_view().skip(from as int),
                actions_allowed(actions.deep_view(), context@, environment@),
                forall|j: int| 0 <= j < i - from ==> !(#[trigger] rest[j] is Default),
                plan@.failure is None,
                plan@ == sequence_plan(self@, environment@, state@.recipe, rest.take(i - from)),
            decreases actions.len() - i,
        {
            let action = &actions[i];
            assert(rest[i - from] == action@);
            assert(actions.deep_view()[i as int] == action@);
            match action {
                Action::Default => {
                    proof {
                        lemma_first_default_unique(rest, i - from);
                    }
                    return (plan, i);
                },
                _ => {},
            }
            let step = self.execute_action(state, context, environment, action);
            proof {
                let next = rest.take(i - from + 1);
                assert(next.drop_last() =~= rest.take(i - from));
                assert(next.last() == action@);
            }
            extend_plan(&mut plan, step);
            if plan.failure.is_some() {
                proof {
                    lemma_first_default(rest);
                    let d = first_default(rest);
                    if d < i - from + 1 {
                        assert(!(rest[d] is Default));
                    }
                    lemma_sequence_plan_stays_failed(
                        self@,
                        environment@,
                        state@.recipe,
                        rest,
                        i - from + 1,
                        d,
                    );
                }
                return (plan, i + 1);
            }
            i += 1;
        }
        proof {
            lemma_first_default_unique(rest, rest.len() as int);
            assert(rest.take(rest.len() as int) =~= rest);
        }
        (plan, i)
    }

    /// The script of the playbook that the recipe gives for the stage of
    /// `state`.
    pub fn play(&self, state: &BuildState, context: Context, environment: &Environment) -> (script:
        PlayScript)
        requires
            actions_allowed(
                playbook_actions(state@.recipe, state@.stage),
                context@,
                environment@,
            ),
        ensures
            script@ == script_of(
                self@,
                environment@,
                state@.recipe,
                playbook_actions(state@.recipe, state@.stage),
            ),
    {
        let default_actions: Vec<Action> = vec![Action::Default];
        assert(default_actions.deep_view() =~= seq![ActionView::Default]);
        let playbook: &Vec<Action> = match state.recipe.playbook(state.stage) {
            Some(found) => &found.actions,
            None => &default_actions,
        };
        let ghost actions = playbook.deep_view();
        assert(actions == playbook_actions(state@.recipe, state@.stage));
        proof {
            lemma_first_default(actions);
            assert(actions.skip(0) =~= actions);
        }
        let (before, stop) = self.run_until_default(state, context, environment, playbook, 0);
        if before.failure.is_some() || stop >= playbook.len() {
            let script = PlayScript {
                before: before.operations,
                found_default: false,
                after: Vec::new(),
                failure: before.failure,
            };
            assert(script.after.deep_view() =~= Seq::empty());
            return script;
        }
        let ghost rest = actions.skip(stop + 1);
        proof {
            lemma_first_default(rest);
        }
        let (after, second) = self.run_until_default(
            state,
            context,
            environment,
            playbook,
            stop + 1,
        );
        let failure = if after.failure.is_some() {
            after.failure
        } else if second < playbook.len() {
            Some(".default called twice")
        } else {
            None
        };
        PlayScript {
            before: before.operations,
            found_default: true,
            after: after.operations,
            failure,
        }
    }

    /// All the work of the build stage of `state`: its playbook, with the
    /// built-in behaviour of the recipe's build style put in its place.
    pub fn play_build_stage(
        &self,
        state: &BuildState,
        context: Context,
        environment: &Environment,
    ) -> (plan: Plan)
        requires
            actions_allowed(
                playbook_actions(state@.recipe, state@.stage),
                context@,
                environment@,
            ),
            environment@.confinement() != ChrootMethod::_BubbleWrap,
        ensures
            plan@ == build_stage_plan(self@, environment@, state@.recipe, state@.stage),
    {
        let script = self.play(state, context, environment);
        let mut plan = Plan { operations: script.before, failure: None };
        if !script.found_default {
            plan.failure = script.failure;
            return plan;
        }
        let style = get_build_style(state.recipe.style.style);
        let default_body = match state.stage {
            Stage::Configure => {
                self.run_until_default(state, context, environment, &style.configure, 0)
            },
            Stage::Build => self.run_until_default(state, context, environment, &style.build, 0),
            Stage::Install => {
                self.run_until_default(state, context, environment, &style.install, 0)
            },
            _ => {
                let mut failed = empty_plan();
                failed.failure = Some("Not part of build stages");
                (failed, 0)
            },
        };
        proof {
            let actions = build_style_of(state@.recipe.style.style).actions_for(state@.stage);
            if actions is Some {
                let a = actions->0;
                assert(a.skip(0) =~= a);
                lemma_first_default_unique(a, a.len() as int);
                assert(a.take(a.len() as int) =~= a);
            }
        }
        extend_plan(&mut plan, default_body.0);
        if plan.failure.is_some() {
            return plan;
        }
        extend_plan(&mut plan, Plan { operations: script.after, failure: script.failure });
        plan
    }
}

/// Once one manual page has been refused, the pages after it change nothing.
pub proof fn lemma_man_plan_stays_failed(
    settings: EngineSettingsView,
    recipe: RecipeView,
    items: Seq<Seq<char>>,
    k: int,
)
    requires
        0 <= k <= items.len(),
        man_plan(settings, recipe, items.take(k)).failure is Some,
    ensures
        man_plan(settings, recipe, items) == man_plan(settings, recipe, items.take(k)),
    decreases items.len() - k,
{
    if k < items.len() {
        let next = items.take(k + 1);
        assert(next.drop_last() =~= items.take(k));
        lemma_man_plan_stays_failed(settings, recipe, items, k + 1);
    } else {
        assert(items.take(k) =~= items);
    }
}

/// Once one action has ended the build, the actions after it change nothing.
pub proof fn lemma_sequence_plan_stays_failed(
    settings: EngineSettingsView,
    env: EnvironmentView,
    recipe: RecipeView,
    actions: Seq<ActionView>,
    k: int,
    n: int,
)
    requires
        0 <= k <= n <= actions.len(),
        sequence_plan(settings, env, recipe, actions.take(k)).failure is Some,
    ensures
        sequence_plan(settings, env, recipe, actions.take(n)) == sequence_plan(
            settings,
            env,
            recipe,
            actions.take(k),
        ),
    decreases n - k,
{
    if k < n {
        let next = actions.take(k + 1);
        assert(next.drop_last() =~= actions.take(k));
        lemma_sequence_plan_stays_failed(settings, env, recipe, actions, k + 1, n);
    }
}


/// Playing one list of actions after another is playing both in a row.
pub proof fn lemma_sequence_plan_concat(
    settings: EngineSettingsView,
    env: EnvironmentView,
    recipe: RecipeView,
    a: Seq<ActionView>,
    b: Seq<ActionView>,
)
    ensures
        sequence_plan(settings, env, recipe, a + b) == sequence_plan(
            settings,
            env,
            recipe,
            a,
        ).followed_by(sequence_plan(settings, env, recipe, b)),
    decreases b.len(),
{
    let pa = sequence_plan(settings, env, recipe, a);
    if b.len() == 0 {
        assert(a + b =~= a);
        assert(pa.operations + Seq::<OperationView>::empty() =~= pa.operations);
    } else {
        assert((a + b).drop_last() =~= a + b.drop_last());
        assert((a + b).last() == b.last());
        lemma_sequence_plan_concat(settings, env, recipe, a, b.drop_last());
        let pb = sequence_plan(settings, env, recipe, b.drop_last());
        let last = action_plan(settings, env, recipe, b.last());
        assert((pa.operations + pb.operations) + last.operations =~= pa.operations + (
        pb.operations + last.operations));
    }
}

/// Two lists in a row hold as many `Default` actions as both together.
pub proof fn lemma_count_defaults_concat(a: Seq<ActionView>, b: Seq<ActionView>)
    ensures
        count_defaults(a + b) == count_defaults(a) + count_defaults(b),
    decreases b.len(),
{
    if b.len() == 0 {
        assert(a + b =~= a);
    } else {
        assert((a + b).drop_last() =~= a + b.drop_last());
        assert((a + b).last() == b.last());
        lemma_count_defaults_concat(a, b.drop_last());
    }
}

/// A list holds no `Default` just where looking for the first one runs to
/// its end.
pub proof fn lemma_count_defaults_none(actions: Seq<ActionView>)
    ensures
        count_defaults(actions) == 0 <==> first_default(actions) == actions.len(),
    decreases actions.len(),
{
    lemma_first_default(actions);
    if actions.len() > 0 {
        let rest = actions.drop_last();
        lemma_count_defaults_none(rest);
        lemma_first_default(rest);
        if count_defaults(actions) == 0 {
            assert forall|i: int| 0 <= i < actions.len() implies !(
            #[trigger] actions[i] is Default) by {
                if i < rest.len() {
                    lemma_first_default_unique(rest, rest.len() as int);
                    assert(rest[i] == actions[i]);
                }
            }
            lemma_first_default_unique(actions, actions.len() as int);
        }
        if first_default(actions) == actions.len() {
            assert forall|i: int| 0 <= i < rest.len() implies !(#[trigger] rest[i] is Default) by {
                assert(rest[i] == actions[i]);
            }
            lemma_first_default_unique(rest, rest.len() as int);
            assert(!(actions[actions.len() - 1] is Default));
        }
    }
}

/// What a playbook comes to, by the number of its `Default` actions. With
/// none, the built-in behaviour does not run, and the actions are all the
/// work. With one, and no action that ends the build, the built-in behaviour
/// runs once, between the actions before it and those after it. With two or
/// more, and no action that ends the build, the build ends with an error at
/// the second.
pub proof fn lemma_playbook_semantics(
    settings: EngineSettingsView,
    env: EnvironmentView,
    recipe: RecipeView,
    actions: Seq<ActionView>,
)
    ensures
        ({
            let script = script_of(settings, env, recipe, actions);
            let all = sequence_plan(settings, env, recipe, actions);
            &&& count_defaults(actions) == 0 ==> !script.found_default && script.after.len() == 0
                && script.before == all.operations && script.failure == all.failure
            &&& count_defaults(actions) == 1 && all.failure is None ==> script.found_default
                && script.failure is None && script.before + script.after == all.operations
                && script.before == sequence_plan(
                settings,
                env,
                recipe,
                actions.take(first_default(actions)),
            ).operations
            &&& count_defaults(actions) >= 2 && all.failure is None ==> script.found_default
                && script.failure == Some(".default called twice"@)
        }),
{
    lemma_first_default(actions);
    lemma_count_defaults_none(actions);
    let d = first_default(actions);
    let head = actions.take(d);
    if d >= actions.len() {
        assert(head =~= actions);
    } else {
        let rest = actions.skip(d + 1);
        let mid = seq![actions[d]];
        assert(actions =~= head + mid + rest);
        lemma_first_default_unique(head, head.len() as int);
        lemma_count_defaults_none(head);
        lemma_count_defaults_concat(head, mid);
        lemma_count_defaults_concat(head + mid, rest);
        assert(mid.drop_last() =~= Seq::<ActionView>::empty());
        assert(mid.last() == actions[d]);
        assert(actions[d] is Default);
        assert(count_defaults(mid.drop_last()) == 0);
        assert(count_defaults(mid) == 1);
        assert(count_defaults(actions) == 1 + count_defaults(rest));
        lemma_sequence_plan_concat(settings, env, recipe, head, mid);
        lemma_sequence_plan_concat(settings, env, recipe, head + mid, rest);
        let ph = sequence_plan(settings, env, recipe, head);
        let pm = sequence_plan(settings, env, recipe, mid);
        assert(sequence_plan(settings, env, recipe, mid.drop_last()) == PlanView::nothing());
        assert(action_plan(settings, env, recipe, mid.last()) == PlanView::nothing());
        assert(pm.operations =~= Seq::<OperationView>::empty());
        assert(pm == PlanView::nothing());
        assert(ph.operations + Seq::<OperationView>::empty() =~= ph.operations);
        lemma_first_default(rest);
        lemma_count_defaults_none(rest);
        let e = first_default(rest);
        let tail = rest.take(e);
        if e >= rest.len() {
            assert(tail =~= rest);
        } else {
            let more = rest.skip(e);
            assert(rest =~= tail + more);
            lemma_sequence_plan_concat(settings, env, recipe, tail, more);
        }
    }
}

} // verus!
