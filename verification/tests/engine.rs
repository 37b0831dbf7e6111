use hob::definition::actions::Stage;
use hob::definition::build_style::{BuildStyle, BuildStyleType, BuildStyleVariables};
use hob::definition::{
    Artifact, ArtifactSource, FetchArtifact, Recipe, RecipeOptions, Side, Verification,
};
use hob::engine::build_state::{BuildState, BuildTime};
use hob::engine::extractor::{Archive, Compression, Extraction, Unpack};
use hob::engine::fetcher::{
    FetchedArtifact, HobFetchAffected, HobFetchError, HobFetchErrorKind,
};
use hob::engine::hooks::{
    get_sorted_hooks, hooks, select_hooks, sort_hooks, CollectElf, FixPermissions, Hook,
    HookKind, HookTrigger, PinTimestamps, StripBinaries,
};
use hob::engine::packager::apk::{Apk, ApkArgs};
use hob::engine::player::Context;
use hob::engine::{
    ChrootMethod, Command, Engine, EngineError, EngineSettings, Operation, SplitClaim, StageWork,
    Step,
};

fn strings(values: &[&str]) -> Vec<String> {
    values.iter().map(|v| v.to_string()).collect()
}

fn side(name: &str, claims: &[&str]) -> Side {
    Side {
        name: name.to_string(),
        description: format!("{} files", name),
        depends: strings(&["foo"]),
        claims: strings(claims),
    }
}

fn recipe(sides: Vec<Side>) -> Recipe {
    Recipe {
        name: "foo".to_string(),
        version: "1.0".to_string(),
        source_dir: "foo-1.0".to_string(),
        revision: 3,
        description: "a thing".to_string(),
        home: Some("https://example.org".to_string()),
        license: strings(&["MIT", "BSD"]),
        maintainers: strings(&["me"]),
        depends: strings(&["libc", "zlib"]),
        provides: vec![],
        artifacts: vec![],
        style: BuildStyle { style: BuildStyleType::Noop, vars: BuildStyleVariables::default() },
        sides,
        options: RecipeOptions { strip: None },
        playbooks: vec![],
    }
}

fn artifact(url: &str, name: &str) -> Artifact {
    Artifact {
        source: ArtifactSource::Fetch(FetchArtifact {
            url: url.to_string(),
            file_name: name.to_string(),
        }),
        verification: Verification { sha256: None },
    }
}

fn engine() -> Engine<Apk> {
    Engine::new::<Apk>()
}

#[test]
fn the_settings_give_the_paths() {
    let settings = EngineSettings::standard();
    let recipe = recipe(vec![side("foo-doc", &[])]);
    assert_eq!(settings.root_path(), "/tmp/hob/root");
    assert_eq!(settings.cache_path(), "/tmp/hob/cache");
    assert_eq!(settings.dest_path(), "/tmp/hob/root/.hob/dest");
    assert_eq!(settings.source_path(), "/tmp/hob/root/.hob/src");
    assert_eq!(settings.package_path(), "/tmp/hob/root/.hob/pkg");
    assert_eq!(settings.package_path_for_packager("apk"), "/tmp/hob/root/.hob/pkg/apk");
    assert_eq!(settings.dest_path_for_recipe(&recipe), "/tmp/hob/root/.hob/dest/foo");
    assert_eq!(settings.dest_path_for_side(&recipe.sides[0]), "/tmp/hob/root/.hob/dest/foo-doc");
    assert_eq!(settings.source_path_for_recipe(&recipe), "/tmp/hob/root/.hob/src/foo");
    assert_eq!(
        settings.extracted_source_path_for_recipe(&recipe),
        "/tmp/hob/root/.hob/src/foo/foo-1.0"
    );
    assert_eq!(
        settings.dest_path_for_context(Context::Recipe(&recipe)),
        "/tmp/hob/root/.hob/dest/foo"
    );
    assert_eq!(
        settings.dest_path_for_context(Context::Side(&recipe, &recipe.sides[0])),
        "/tmp/hob/root/.hob/dest/foo-doc"
    );
    assert_eq!(settings.chroot_method, ChrootMethod::SystemChroot);
}

#[test]
fn absolute_directories_stand_alone() {
    let settings = EngineSettings {
        cache_path: "/var/cache/hob".to_string(),
        source_path: "/src".to_string(),
        root_path: "/root/".to_string(),
        dest_path: "dest".to_string(),
        package_path: "pkg/".to_string(),
        chroot_method: ChrootMethod::NoChroot,
    };
    assert_eq!(settings.source_path(), "/src");
    assert_eq!(settings.dest_path(), "/root/dest");
    assert_eq!(settings.package_path_for_packager("apk"), "/root/pkg/apk");
}

#[test]
fn the_stages_run_in_the_order_of_the_pipeline() {
    assert_eq!(
        Stage::stages(),
        [
            Stage::Prepare,
            Stage::Fetch,
            Stage::Extract,
            Stage::Configure,
            Stage::Build,
            Stage::Install,
            Stage::Split,
            Stage::Package,
        ]
    );
    assert!(Stage::Fetch < Stage::Prepare);
    assert_eq!(Stage::Fetch.rank(), 0);
    assert_eq!(Stage::Prepare.rank(), 1);
    assert_eq!(Stage::Package.rank(), 7);
}

#[test]
fn the_build_of_a_recipe_goes_stage_by_stage() {
    let steps = engine().build_recipe();
    assert_eq!(
        steps,
        vec![
            Step::Body(Stage::Prepare),
            Step::Body(Stage::Fetch),
            Step::Body(Stage::Extract),
            Step::Body(Stage::Configure),
            Step::Body(Stage::Build),
            Step::Body(Stage::Install),
            Step::Hook(CollectElf::hook()),
            Step::Hook(StripBinaries::hook()),
            Step::Body(Stage::Split),
            Step::Hook(FixPermissions::hook()),
            Step::Hook(PinTimestamps::hook()),
            Step::Body(Stage::Package),
        ]
    );
}

#[test]
fn every_stage_has_its_work() {
    assert_eq!(Engine::<Apk>::work_of(Stage::Prepare), StageWork::Prepare);
    assert_eq!(Engine::<Apk>::work_of(Stage::Fetch), StageWork::Fetch);
    assert_eq!(Engine::<Apk>::work_of(Stage::Extract), StageWork::Extract);
    assert_eq!(Engine::<Apk>::work_of(Stage::Configure), StageWork::Build);
    assert_eq!(Engine::<Apk>::work_of(Stage::Build), StageWork::Build);
    assert_eq!(Engine::<Apk>::work_of(Stage::Install), StageWork::Build);
    assert_eq!(Engine::<Apk>::work_of(Stage::Split), StageWork::Split);
    assert_eq!(Engine::<Apk>::work_of(Stage::Package), StageWork::Package);
}

#[test]
fn the_hooks_are_what_they_are() {
    assert_eq!(
        hooks(),
        vec![
            Hook {
                kind: HookKind::CollectElf,
                priority: 0,
                stage: Stage::Install,
                trigger: HookTrigger::After,
            },
            Hook {
                kind: HookKind::StripBinaries,
                priority: 100,
                stage: Stage::Install,
                trigger: HookTrigger::After,
            },
            Hook {
                kind: HookKind::PinTimestamps,
                priority: 100,
                stage: Stage::Package,
                trigger: HookTrigger::Before,
            },
            Hook {
                kind: HookKind::FixPermissions,
                priority: 0,
                stage: Stage::Package,
                trigger: HookTrigger::Before,
            },
        ]
    );
    assert_eq!(CollectElf::hook().prio(), 0);
    assert_eq!(StripBinaries::hook().when(), (Stage::Install, HookTrigger::After));
    assert_eq!(
        get_sorted_hooks(),
        vec![
            CollectElf::hook(),
            StripBinaries::hook(),
            FixPermissions::hook(),
            PinTimestamps::hook(),
        ]
    );
}

fn hook(kind: HookKind, stage: Stage, trigger: HookTrigger, priority: usize) -> Hook {
    Hook { kind, priority, stage, trigger }
}

#[test]
fn hooks_are_sorted_by_stage_then_trigger_then_priority() {
    let a = hook(HookKind::CollectElf, Stage::Install, HookTrigger::After, 7);
    let b = hook(HookKind::StripBinaries, Stage::Install, HookTrigger::Before, 9);
    let c = hook(HookKind::PinTimestamps, Stage::Fetch, HookTrigger::After, usize::MAX);
    let d = hook(HookKind::FixPermissions, Stage::Install, HookTrigger::After, 3);
    let e = hook(HookKind::FixPermissions, Stage::Prepare, HookTrigger::Before, 0);
    assert_eq!(sort_hooks(&vec![a, b, c, d, e]), vec![c, e, b, d, a]);
    assert_eq!(sort_hooks(&vec![]), vec![]);
    assert!(a.sorts_after(&d));
    assert!(!d.sorts_after(&a));
    assert!(!a.sorts_after(&a));
    assert!(e.sorts_after(&c));
}

#[test]
fn hooks_with_the_same_keys_keep_their_order() {
    let first = hook(HookKind::CollectElf, Stage::Build, HookTrigger::After, 5);
    let second = hook(HookKind::StripBinaries, Stage::Build, HookTrigger::After, 5);
    let third = hook(HookKind::PinTimestamps, Stage::Build, HookTrigger::After, 5);
    let early = hook(HookKind::FixPermissions, Stage::Build, HookTrigger::After, 1);
    assert_eq!(
        sort_hooks(&vec![first, second, early, third]),
        vec![early, first, second, third]
    );
    assert_eq!(
        sort_hooks(&vec![third, second, first, early]),
        vec![early, third, second, first]
    );
}

#[test]
fn the_hooks_of_a_stage_run_by_priority() {
    let engine = engine();
    assert_eq!(
        engine.run_hooks(Stage::Install, HookTrigger::After),
        vec![CollectElf::hook(), StripBinaries::hook()]
    );
    assert_eq!(
        engine.run_hooks(Stage::Package, HookTrigger::Before),
        vec![FixPermissions::hook(), PinTimestamps::hook()]
    );
    assert_eq!(engine.run_hooks(Stage::Package, HookTrigger::After), vec![]);
    assert_eq!(engine.run_hooks(Stage::Install, HookTrigger::Before), vec![]);
    let fives = hook(HookKind::CollectElf, Stage::Build, HookTrigger::After, 5);
    let ones = hook(HookKind::StripBinaries, Stage::Build, HookTrigger::After, 1);
    let other = hook(HookKind::PinTimestamps, Stage::Build, HookTrigger::Before, 0);
    let sorted = sort_hooks(&vec![fives, other, ones]);
    assert_eq!(select_hooks(&sorted, Stage::Build, HookTrigger::After), vec![ones, fives]);
}

#[test]
fn preparing_makes_the_cache_directory() {
    assert_eq!(
        engine().prepare_engine(),
        vec![Operation::CreateDirAll { path: "/tmp/hob/cache".to_string() }]
    );
}

#[test]
fn an_engine_is_made_of_parts_with_its_settings() {
    let mut settings = EngineSettings::standard();
    settings.cache_path = "/c".to_string();
    let engine: Engine<Apk> = Engine::from_settings::<Apk>(settings);
    assert_eq!(engine.settings.cache_path, "/c");
    assert_eq!(engine.fetcher.settings.cache_path, "/c");
    assert_eq!(engine.extractor.settings.cache_path, "/c");
    assert_eq!(engine.player.settings.cache_path, "/c");
    assert_eq!(engine.environment.settings.cache_path, "/c");
    assert_eq!(engine.packager.settings.cache_path, "/c");
    assert!(engine.environment.bootstrap);
    assert_eq!(engine.hooks, get_sorted_hooks());
}

fn failure(artifact: &Artifact, words: &str) -> HobFetchError {
    HobFetchError {
        kind: HobFetchErrorKind::_Other,
        affected: None,
        artifact: artifact.duplicate(),
        inner: Some(words.to_string()),
    }
}

#[test]
fn fetched_artifacts_become_those_of_the_build() {
    let a = artifact("http://x/a.tar", "a.tar");
    let b = artifact("http://x/b.zip", "b.zip");
    let recipe = recipe(vec![]);
    let mut state = BuildState::new(&recipe, BuildTime { secs: 0, micros: 0 });
    let results = vec![
        Ok(FetchedArtifact { artifact: &a, path: "/c/1-a.tar".to_string() }),
        Ok(FetchedArtifact { artifact: &b, path: "/c/2-b.zip".to_string() }),
    ];
    assert!(Engine::<Apk>::fetch(&mut state, results).is_ok());
    assert_eq!(
        state.artifacts,
        vec![
            FetchedArtifact { artifact: &a, path: "/c/1-a.tar".to_string() },
            FetchedArtifact { artifact: &b, path: "/c/2-b.zip".to_string() },
        ]
    );
    assert!(Engine::<Apk>::fetch(&mut state, vec![]).is_ok());
    assert_eq!(state.artifacts, vec![]);
}

#[test]
fn all_failed_fetches_are_told_together() {
    let a = artifact("http://x/a.tar", "a.tar");
    let b = artifact("http://x/b.zip", "b.zip");
    let c = artifact("http://x/c.zip", "c.zip");
    let recipe = recipe(vec![]);
    let mut state = BuildState::new(&recipe, BuildTime { secs: 0, micros: 0 });
    state.artifacts = vec![FetchedArtifact { artifact: &a, path: "/old".to_string() }];
    let results = vec![
        Err(failure(&a, "timeout")),
        Ok(FetchedArtifact { artifact: &b, path: "/c/2-b.zip".to_string() }),
        Err(failure(&c, "refused")),
    ];
    let error = Engine::<Apk>::fetch(&mut state, results).unwrap_err();
    assert_eq!(error, EngineError { errors: vec![failure(&a, "timeout"), failure(&c, "refused")] });
    assert_eq!(state.artifacts, vec![FetchedArtifact { artifact: &a, path: "/old".to_string() }]);
    assert_eq!(
        error.to_text(),
        "Encountered 2 errors:\n\n\tunknown error occurred for Fetch(FetchArtifact { url: \
         \"http://x/a.tar\", file_name: \"a.tar\" })\n\n\tunknown error occurred for \
         Fetch(FetchArtifact { url: \"http://x/c.zip\", file_name: \"c.zip\" })"
    );
    assert_eq!(EngineError { errors: vec![] }.to_text(), "Encountered 0 errors:");
}

#[test]
fn every_fetched_artifact_is_unpacked_into_the_recipe() {
    let a = artifact("http://x/a.tar.gz", "a.tar.gz");
    let b = artifact("http://x/b.bin", "b.bin");
    let recipe = recipe(vec![]);
    let mut state = BuildState::new(&recipe, BuildTime { secs: 0, micros: 0 });
    state.artifacts = vec![
        FetchedArtifact { artifact: &a, path: "/tmp/hob/cache/00-a.tar.gz".to_string() },
        FetchedArtifact { artifact: &b, path: "/tmp/hob/cache/01-b.bin".to_string() },
    ];
    assert_eq!(
        engine().extract(&state),
        vec![
            Extraction {
                target: "/tmp/hob/root/.hob/src/foo".to_string(),
                unpack: Some(Unpack {
                    source: "/tmp/hob/cache/00-a.tar.gz".to_string(),
                    archive: Archive::Tar,
                    compression: Compression::Gzip,
                }),
                failure: None,
            },
            Extraction {
                target: "/tmp/hob/root/.hob/src/foo".to_string(),
                unpack: None,
                failure: Some("couldn't guess archive type"),
            },
        ]
    );
}

#[test]
fn the_claims_of_the_sides_move_files_to_the_sides() {
    let recipe = recipe(vec![
        side("foo-doc", &["usr/share/doc/**", "usr/share/man/**"]),
        side("foo-empty", &[]),
        side("foo-dev", &["usr/include/**"]),
    ]);
    let from = "/tmp/hob/root/.hob/dest/foo".to_string();
    let claims = engine().split_claims(&recipe);
    assert_eq!(
        claims,
        vec![
            SplitClaim {
                pattern: "usr/share/doc/**".to_string(),
                from: from.clone(),
                to: "/tmp/hob/root/.hob/dest/foo-doc".to_string(),
            },
            SplitClaim {
                pattern: "usr/share/man/**".to_string(),
                from: from.clone(),
                to: "/tmp/hob/root/.hob/dest/foo-doc".to_string(),
            },
            SplitClaim {
                pattern: "usr/include/**".to_string(),
                from: from.clone(),
                to: "/tmp/hob/root/.hob/dest/foo-dev".to_string(),
            },
        ]
    );
    assert_eq!(
        Engine::<Apk>::split_moves(&claims[2], "usr/include/foo.h"),
        vec![
            Operation::CreateDirAll {
                path: "/tmp/hob/root/.hob/dest/foo-dev/usr/include".to_string(),
            },
            Operation::Rename {
                from: "/tmp/hob/root/.hob/dest/foo/usr/include/foo.h".to_string(),
                to: "/tmp/hob/root/.hob/dest/foo-dev/usr/include/foo.h".to_string(),
            },
        ]
    );
    assert_eq!(
        Engine::<Apk>::split_moves(&claims[2], "README"),
        vec![
            Operation::CreateDirAll { path: "/tmp/hob/root/.hob/dest/foo-dev/".to_string() },
            Operation::Rename {
                from: "/tmp/hob/root/.hob/dest/foo/README".to_string(),
                to: "/tmp/hob/root/.hob/dest/foo-dev/README".to_string(),
            },
        ]
    );
    assert_eq!(
        Engine::<Apk>::split_moves(&claims[2], ""),
        vec![Operation::Rename {
            from: "/tmp/hob/root/.hob/dest/foo/".to_string(),
            to: "/tmp/hob/root/.hob/dest/foo-dev/".to_string(),
        }]
    );
}

#[test]
fn the_recipe_is_packaged_and_then_its_sides() {
    let recipe = recipe(vec![side("foo-doc", &[]), side("foo-dev", &[])]);
    let contexts = Engine::<Apk>::package_contexts(&recipe);
    let names: Vec<&str> = contexts.iter().map(|c| c.name()).collect();
    assert_eq!(names, vec!["foo", "foo-doc", "foo-dev"]);
    assert_eq!(contexts[0], Context::Recipe(&recipe));
    assert_eq!(contexts[2], Context::Side(&recipe, &recipe.sides[1]));
}

fn apk(args: &[&str]) -> Vec<Operation> {
    let mut all = vec!["mkpkg".to_string()];
    all.extend(strings(args));
    vec![
        Operation::CreateDirAll { path: "/tmp/hob/root/.hob/pkg/apk".to_string() },
        Operation::Run {
            command: Command {
                program: "apk".to_string(),
                args: all,
                current_dir: Some("/tmp/hob/root/.hob/pkg/apk".to_string()),
            },
            failure: None,
        },
    ]
}

#[test]
fn apk_packages_are_described_by_the_recipe() {
    let recipe = recipe(vec![side("foo-doc", &[])]);
    let engine = engine();
    let state = BuildState::new(&recipe, BuildTime { secs: 0, micros: 0 });
    assert_eq!(
        engine.package(&state, Context::Recipe(&recipe)),
        apk(&[
            "--info",
            "name:foo",
            "--info",
            "version:1.0-r3",
            "--info",
            "description:a thing",
            "--info",
            "license:MIT BSD",
            "--info",
            "origin:foo",
            "--info",
            "maintainer:me",
            "--info",
            "url:https://example.org",
            "--info",
            "depends:libc zlib",
            "--files",
            "/tmp/hob/root/.hob/dest/foo",
        ])
    );
    let mut bare = self::recipe(vec![side("foo-doc", &[])]);
    bare.home = None;
    bare.sides[0].depends = vec![];
    let state = BuildState::new(&bare, BuildTime { secs: 0, micros: 0 });
    assert_eq!(
        engine.package(&state, Context::Side(&bare, &bare.sides[0])),
        apk(&[
            "--info",
            "name:foo-doc",
            "--info",
            "version:1.0-r3",
            "--info",
            "description:foo-doc files",
            "--info",
            "license:MIT BSD",
            "--info",
            "origin:foo",
            "--info",
            "maintainer:me",
            "--files",
            "/tmp/hob/root/.hob/dest/foo-doc",
        ])
    );
}

#[test]
fn apk_arguments_are_built_one_by_one() {
    let mut args = ApkArgs::new();
    assert_eq!(args.0, strings(&[]));
    args.output("/out");
    args.input("/in");
    args.info("name", "value: x");
    assert_eq!(
        args.0,
        strings(&["--output", "/out", "--files", "/in", "--info", "name:value: x"])
    );
}

#[test]
fn a_verification_failure_is_told_in_words() {
    let a = artifact("http://x/a.tar", "a.tar");
    let error = HobFetchError {
        kind: HobFetchErrorKind::VerificationFailed {
            hashes: vec![
                hob::engine::fetcher::FailedHash {
                    algo: "sha256",
                    found: vec![0x00, 0xff],
                    expected: vec![0x12, 0xab],
                },
                hob::engine::fetcher::FailedHash {
                    algo: "sha512",
                    found: vec![],
                    expected: vec![0x01],
                },
            ],
        },
        affected: Some(HobFetchAffected::Cache("/c/1-a.tar".to_string())),
        artifact: a.duplicate(),
        inner: None,
    };
    assert_eq!(
        error.to_text(),
        "verification failed (sha256 expected 12ab but found 00ff, sha512 expected 01 but found ) \
         for Fetch(FetchArtifact { url: \"http://x/a.tar\", file_name: \"a.tar\" }) with cached \
         file (/c/1-a.tar)"
    );
    let fetched = HobFetchError {
        kind: HobFetchErrorKind::VerificationFailed { hashes: vec![] },
        affected: Some(HobFetchAffected::Fetched),
        artifact: a.duplicate(),
        inner: None,
    };
    assert_eq!(
        fetched.to_text(),
        "verification failed () for Fetch(FetchArtifact { url: \"http://x/a.tar\", file_name: \
         \"a.tar\" }) with fetched file"
    );
}
