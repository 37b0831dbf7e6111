use hob::definition::actions::{
    Action, ActionPlaybook, BinAction, CcAction, DirAction, LinkAction, ManAction, RmAction, Stage,
};
use hob::definition::build_style::{BuildStyle, BuildStyleType, BuildStyleVariables};
use hob::definition::{Recipe, RecipeOptions, Side};
use hob::engine::build_state::{BuildState, BuildTime};
use hob::engine::build_style::get_build_style;
use hob::engine::environment::Environment;
use hob::engine::player::{Context, PlayScript, Player};
use hob::engine::{ChrootMethod, Command, EngineSettings, Operation, Plan};
use std::sync::Arc;

fn strings(values: &[&str]) -> Vec<String> {
    values.iter().map(|v| v.to_string()).collect()
}

fn recipe(style: BuildStyleType, playbooks: Vec<ActionPlaybook>) -> Recipe {
    Recipe {
        name: "foo".to_string(),
        version: "1.0".to_string(),
        source_dir: "foo-1.0".to_string(),
        revision: 0,
        description: "a thing".to_string(),
        home: None,
        license: vec![],
        maintainers: vec![],
        depends: vec![],
        provides: vec![],
        artifacts: vec![],
        style: BuildStyle { style, vars: BuildStyleVariables::default() },
        sides: vec![],
        options: RecipeOptions { strip: None },
        playbooks,
    }
}

fn environment(settings: &Arc<EngineSettings>, bootstrap: bool) -> Environment {
    Environment { settings: settings.clone(), bootstrap, cpus: 4 }
}

fn state<'a>(recipe: &'a Recipe, stage: Stage) -> BuildState<'a> {
    let mut state = BuildState::new(recipe, BuildTime { secs: 1, micros: 2 });
    state.stage = stage;
    state
}

const SRC: &str = "/tmp/hob/root/.hob/src/foo";
const CWD: &str = "/tmp/hob/root/.hob/src/foo/foo-1.0";
const DEST: &str = "/tmp/hob/root/.hob/dest/foo";

fn run(program: &str, args: &[&str], failure: &'static str) -> Operation {
    Operation::Run {
        command: Command {
            program: program.to_string(),
            args: strings(args),
            current_dir: Some(CWD.to_string()),
        },
        failure: Some(failure),
    }
}

fn plan_of(recipe: &Recipe, action: &Action) -> Plan {
    let settings = Arc::new(EngineSettings::standard());
    let player = Player::new(settings.clone());
    let env = environment(&settings, true);
    let state = state(recipe, Stage::Install);
    player.execute_action(&state, Context::Recipe(recipe), &env, action)
}

#[test]
fn the_build_styles_have_their_actions() {
    let noop = get_build_style(BuildStyleType::Noop);
    assert_eq!(noop.style, BuildStyleType::Noop);
    assert_eq!(noop.configure, vec![]);
    assert_eq!(noop.build, vec![]);
    assert_eq!(noop.install, vec![]);
    for style in [BuildStyleType::Configure, BuildStyleType::GnuConfigure] {
        let table = get_build_style(style);
        assert_eq!(table.style, style);
        assert_eq!(table.configure, vec![Action::Configure]);
        assert_eq!(table.build, vec![Action::Make]);
        assert_eq!(table.install, vec![Action::MakeInstall]);
        assert_eq!(table.check, vec![]);
    }
}

#[test]
fn a_command_runs_in_the_unpacked_sources() {
    let settings = Arc::new(EngineSettings::standard());
    let recipe = recipe(BuildStyleType::Noop, vec![]);
    let env = environment(&settings, true);
    assert_eq!(
        env.command(&recipe, "gcc", &strings(&["-o", "x"])),
        Command {
            program: "gcc".to_string(),
            args: strings(&["-o", "x"]),
            current_dir: Some(CWD.to_string()),
        }
    );
}

#[test]
fn a_command_is_confined_once_the_root_is_made() {
    let settings = Arc::new(EngineSettings::standard());
    let recipe = recipe(BuildStyleType::Noop, vec![]);
    let env = environment(&settings, false);
    assert_eq!(
        env.command(&recipe, "gcc", &strings(&["-o", "x"])),
        Command {
            program: "chroot".to_string(),
            args: strings(&["/tmp/hob/root", "--", "gcc", "-o", "x"]),
            current_dir: Some(CWD.to_string()),
        }
    );
    let mut free = EngineSettings::standard();
    free.chroot_method = ChrootMethod::NoChroot;
    let env = environment(&Arc::new(free), false);
    assert_eq!(env.command(&recipe, "make", &vec![]).program, "make");
    let mut other = EngineSettings::standard();
    other.chroot_method = ChrootMethod::_Ethereal;
    let env = environment(&Arc::new(other), false);
    assert_eq!(env.command(&recipe, "make", &vec![]).program, "make");
}

#[test]
fn a_new_environment_is_in_bootstrap() {
    let settings = Arc::new(EngineSettings::standard());
    let env = Environment::new(settings.clone());
    assert!(env.bootstrap);
    assert!(env.cpus >= 1);
    assert_eq!(*env.settings, EngineSettings::standard());
}

#[test]
fn cc_compiles_with_the_flags_of_the_style() {
    let mut recipe = recipe(BuildStyleType::Noop, vec![]);
    recipe.style.vars.cc_flags = Some(strings(&["-O2", "-g"]));
    let action = Action::Cc(CcAction { input: strings(&["a.c", "b.c"]), output: "x".to_string() });
    assert_eq!(
        plan_of(&recipe, &action),
        Plan {
            operations: vec![run("gcc", &["-o", "x", "-O2", "-g", "a.c", "b.c"], "cc failed")],
            failure: None,
        }
    );
}

#[test]
fn make_runs_one_job_more_than_there_are_processors() {
    let mut recipe = recipe(BuildStyleType::Noop, vec![]);
    assert_eq!(
        plan_of(&recipe, &Action::Make),
        Plan { operations: vec![run("make", &["-j5"], "make failed")], failure: None }
    );
    recipe.style.vars.make_command = Some("gmake".to_string());
    recipe.style.vars.make_args = Some(strings(&["V=1"]));
    assert_eq!(
        plan_of(&recipe, &Action::Make),
        Plan { operations: vec![run("gmake", &["-j5", "V=1"], "make failed")], failure: None }
    );
}

#[test]
fn make_install_installs_into_the_destination() {
    let mut recipe = recipe(BuildStyleType::Noop, vec![]);
    recipe.style.vars.make_args = Some(strings(&["V=1"]));
    assert_eq!(
        plan_of(&recipe, &Action::MakeInstall),
        Plan {
            operations: vec![run(
                "make",
                &["V=1", "DESTDIR=/tmp/hob/root/.hob/dest/foo", "install"],
                "make install failed"
            )],
            failure: None,
        }
    );
}

#[test]
fn configure_sets_the_prefix() {
    let mut recipe = recipe(BuildStyleType::Noop, vec![]);
    assert_eq!(
        plan_of(&recipe, &Action::Configure),
        Plan {
            operations: vec![run("./configure", &["--prefix=/usr"], "configure failed")],
            failure: None,
        }
    );
    recipe.style.vars.configure_script = Some("./autogen.sh".to_string());
    recipe.style.vars.configure_args = Some(strings(&["--disable-nls"]));
    assert_eq!(
        plan_of(&recipe, &Action::Configure),
        Plan {
            operations: vec![run(
                "./autogen.sh",
                &["--prefix=/usr", "--disable-nls"],
                "configure failed"
            )],
            failure: None,
        }
    );
}

#[test]
fn bin_copies_programs() {
    let recipe = recipe(BuildStyleType::Noop, vec![]);
    let action = Action::Bin(BinAction { binaries: strings(&["x", "tools/y"]) });
    assert_eq!(
        plan_of(&recipe, &action),
        Plan {
            operations: vec![
                Operation::CreateDirAll { path: format!("{}/path", DEST) },
                Operation::Copy { from: format!("{}/x", SRC), to: format!("{}/bin/x", DEST) },
                Operation::Copy {
                    from: format!("{}/tools/y", SRC),
                    to: format!("{}/bin/tools/y", DEST),
                },
            ],
            failure: None,
        }
    );
}

#[test]
fn man_copies_pages_into_their_sections() {
    let recipe = recipe(BuildStyleType::Noop, vec![]);
    let action = Action::Man(ManAction { man_files: strings(&["x.1", "doc/y.conf.5"]) });
    assert_eq!(
        plan_of(&recipe, &action),
        Plan {
            operations: vec![
                Operation::CreateDirAll { path: format!("{}/usr/share/man/man1", DEST) },
                Operation::Copy {
                    from: format!("{}/x.1", SRC),
                    to: format!("{}/usr/share/man/man1/x.1", DEST),
                },
                Operation::CreateDirAll { path: format!("{}/usr/share/man/man5", DEST) },
                Operation::Copy {
                    from: format!("{}/doc/y.conf.5", SRC),
                    to: format!("{}/usr/share/man/man5/doc/y.conf.5", DEST),
                },
            ],
            failure: None,
        }
    );
}

#[test]
fn man_refuses_a_page_without_a_section() {
    let recipe = recipe(BuildStyleType::Noop, vec![]);
    let action = Action::Man(ManAction { man_files: strings(&["x.1", "y.txt", "z.3"]) });
    assert_eq!(
        plan_of(&recipe, &action),
        Plan {
            operations: vec![
                Operation::CreateDirAll { path: format!("{}/usr/share/man/man1", DEST) },
                Operation::Copy {
                    from: format!("{}/x.1", SRC),
                    to: format!("{}/usr/share/man/man1/x.1", DEST),
                },
            ],
            failure: Some("invalid man file, should end with .<digit>"),
        }
    );
    let nameless = Action::Man(ManAction { man_files: strings(&["readme"]) });
    assert_eq!(
        plan_of(&recipe, &nameless).failure,
        Some("invalid man file, should end with .<digit>")
    );
    let empty_section = Action::Man(ManAction { man_files: strings(&["x."]) });
    assert_eq!(
        plan_of(&recipe, &empty_section).operations[0],
        Operation::CreateDirAll { path: format!("{}/usr/share/man/man", DEST) }
    );
}

#[test]
fn link_rm_and_dir_work_in_the_destination() {
    let recipe = recipe(BuildStyleType::Noop, vec![]);
    let link =
        Action::Link(LinkAction { source: strings(&["a", "b"]), target: "usr/bin/c".to_string() });
    assert_eq!(
        plan_of(&recipe, &link),
        Plan {
            operations: vec![
                Operation::Symlink {
                    points_to: "a".to_string(),
                    link: format!("{}/usr/bin/c", DEST),
                },
                Operation::Symlink {
                    points_to: "b".to_string(),
                    link: format!("{}/usr/bin/c", DEST),
                },
            ],
            failure: None,
        }
    );
    let rm = Action::Rm(RmAction { targets: strings(&["usr/lib/x.la", "/etc/passwd"]) });
    assert_eq!(
        plan_of(&recipe, &rm),
        Plan {
            operations: vec![
                Operation::Remove { path: format!("{}/usr/lib/x.la", DEST) },
                Operation::Remove { path: "/etc/passwd".to_string() },
            ],
            failure: None,
        }
    );
    let dir = Action::Dir(DirAction { targets: strings(&["var/lib/x"]) });
    assert_eq!(
        plan_of(&recipe, &dir),
        Plan {
            operations: vec![Operation::CreateDirAll { path: format!("{}/var/lib/x", DEST) }],
            failure: None,
        }
    );
}

fn play(recipe: &Recipe, stage: Stage) -> PlayScript {
    let settings = Arc::new(EngineSettings::standard());
    let player = Player::new(settings.clone());
    let env = environment(&settings, true);
    let state = state(recipe, stage);
    player.play(&state, Context::Recipe(recipe), &env)
}

fn dir_op(name: &str) -> Operation {
    Operation::CreateDirAll { path: format!("{}/{}", DEST, name) }
}

fn dir_action(name: &str) -> Action {
    Action::Dir(DirAction { targets: strings(&[name]) })
}

#[test]
fn a_stage_without_playbook_runs_the_built_in_alone() {
    let recipe = recipe(BuildStyleType::Noop, vec![]);
    assert_eq!(
        play(&recipe, Stage::Build),
        PlayScript { before: vec![], found_default: true, after: vec![], failure: None }
    );
}

#[test]
fn a_playbook_without_default_runs_its_actions_only() {
    let recipe = recipe(
        BuildStyleType::Configure,
        vec![ActionPlaybook {
            stage: Stage::Build,
            actions: vec![dir_action("a"), dir_action("b")],
        }],
    );
    assert_eq!(
        play(&recipe, Stage::Build),
        PlayScript {
            before: vec![dir_op("a"), dir_op("b")],
            found_default: false,
            after: vec![],
            failure: None,
        }
    );
    let settings = Arc::new(EngineSettings::standard());
    let player = Player::new(settings.clone());
    let env = environment(&settings, true);
    let state = state(&recipe, Stage::Build);
    assert_eq!(
        player.play_build_stage(&state, Context::Recipe(&recipe), &env),
        Plan { operations: vec![dir_op("a"), dir_op("b")], failure: None }
    );
}

#[test]
fn one_default_runs_the_built_in_in_its_place() {
    let recipe = recipe(
        BuildStyleType::Noop,
        vec![ActionPlaybook {
            stage: Stage::Fetch,
            actions: vec![dir_action("a"), Action::Default, dir_action("b")],
        }],
    );
    assert_eq!(
        play(&recipe, Stage::Fetch),
        PlayScript {
            before: vec![dir_op("a")],
            found_default: true,
            after: vec![dir_op("b")],
            failure: None,
        }
    );
}

#[test]
fn a_second_default_ends_the_build() {
    let recipe = recipe(
        BuildStyleType::Noop,
        vec![ActionPlaybook {
            stage: Stage::Fetch,
            actions: vec![
                Action::Default,
                dir_action("a"),
                Action::Default,
                dir_action("b"),
                Action::Default,
            ],
        }],
    );
    assert_eq!(
        play(&recipe, Stage::Fetch),
        PlayScript {
            before: vec![],
            found_default: true,
            after: vec![dir_op("a")],
            failure: Some(".default called twice"),
        }
    );
}

#[test]
fn a_failing_action_ends_the_playbook() {
    let bad = Action::Man(ManAction { man_files: strings(&["y.txt"]) });
    let before = recipe(
        BuildStyleType::Noop,
        vec![ActionPlaybook {
            stage: Stage::Install,
            actions: vec![dir_action("a"), bad.clone(), Action::Default, dir_action("b")],
        }],
    );
    assert_eq!(
        play(&before, Stage::Install),
        PlayScript {
            before: vec![dir_op("a")],
            found_default: false,
            after: vec![],
            failure: Some("invalid man file, should end with .<digit>"),
        }
    );
    let after = recipe(
        BuildStyleType::Noop,
        vec![ActionPlaybook {
            stage: Stage::Install,
            actions: vec![Action::Default, dir_action("a"), bad, Action::Default],
        }],
    );
    assert_eq!(
        play(&after, Stage::Install),
        PlayScript {
            before: vec![],
            found_default: true,
            after: vec![dir_op("a")],
            failure: Some("invalid man file, should end with .<digit>"),
        }
    );
}

#[test]
fn install_compiles_and_then_runs_the_built_in() {
    let recipe = recipe(
        BuildStyleType::Configure,
        vec![ActionPlaybook {
            stage: Stage::Install,
            actions: vec![
                Action::Cc(CcAction { input: strings(&["x.c"]), output: "x".to_string() }),
                Action::Default,
            ],
        }],
    );
    let settings = Arc::new(EngineSettings::standard());
    let player = Player::new(settings.clone());
    let env = environment(&settings, true);
    let state = state(&recipe, Stage::Install);
    assert_eq!(
        player.play_build_stage(&state, Context::Recipe(&recipe), &env),
        Plan {
            operations: vec![
                run("gcc", &["-o", "x", "x.c"], "cc failed"),
                run(
                    "make",
                    &["DESTDIR=/tmp/hob/root/.hob/dest/foo", "install"],
                    "make install failed"
                ),
            ],
            failure: None,
        }
    );
}

#[test]
fn the_build_stages_run_the_build_style() {
    let recipe = recipe(BuildStyleType::GnuConfigure, vec![]);
    let settings = Arc::new(EngineSettings::standard());
    let player = Player::new(settings.clone());
    let env = environment(&settings, true);
    let configure = state(&recipe, Stage::Configure);
    assert_eq!(
        player.play_build_stage(&configure, Context::Recipe(&recipe), &env),
        Plan {
            operations: vec![run("./configure", &["--prefix=/usr"], "configure failed")],
            failure: None,
        }
    );
    let build = state(&recipe, Stage::Build);
    assert_eq!(
        player.play_build_stage(&build, Context::Recipe(&recipe), &env),
        Plan { operations: vec![run("make", &["-j5"], "make failed")], failure: None }
    );
    let split = state(&recipe, Stage::Split);
    assert_eq!(
        player.play_build_stage(&split, Context::Recipe(&recipe), &env),
        Plan { operations: vec![], failure: Some("Not part of build stages") }
    );
    let noop = self::recipe(BuildStyleType::Noop, vec![]);
    let install = state(&noop, Stage::Install);
    assert_eq!(
        player.play_build_stage(&install, Context::Recipe(&noop), &env),
        Plan { operations: vec![], failure: None }
    );
}

#[test]
fn a_context_speaks_for_the_recipe_or_the_side() {
    let mut recipe = recipe(BuildStyleType::Noop, vec![]);
    recipe.depends = strings(&["a"]);
    let side = Side {
        name: "foo-doc".to_string(),
        description: "docs".to_string(),
        depends: strings(&["foo"]),
        claims: vec![],
    };
    let whole = Context::Recipe(&recipe);
    assert_eq!(whole.recipe(), &recipe);
    assert_eq!(whole.origin(), "foo");
    assert_eq!(whole.name(), "foo");
    assert_eq!(whole.description(), "a thing");
    assert_eq!(whole.depends(), &strings(&["a"]));
    let part = Context::Side(&recipe, &side);
    assert_eq!(part.recipe(), &recipe);
    assert_eq!(part.origin(), "foo");
    assert_eq!(part.name(), "foo-doc");
    assert_eq!(part.description(), "docs");
    assert_eq!(part.depends(), &strings(&["foo"]));
}
