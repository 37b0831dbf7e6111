use hob::definition::actions::{
    Action, ActionPlaybook, BinAction, CcAction, DirAction, LinkAction, ManAction, RmAction, Stage,
};
use hob::definition::build_style::{BuildStyle, BuildStyleType, BuildStyleVariables, StringMap};
use hob::definition::{
    Artifact, ArtifactSource, FetchArtifact, Recipe, RecipeOptions, Side, Verification,
};
use hob::traversal::{ObjectTraversal, ObjectWalker};

struct Uppercase;

impl ObjectWalker for Uppercase {
    fn enter_string(&mut self, value: &mut String) {
        *value = value.to_uppercase();
    }
}

struct Record(Vec<String>);

impl ObjectWalker for Record {
    fn enter_string(&mut self, value: &mut String) {
        self.0.push(value.clone());
    }
}

fn strings(values: &[&str]) -> Vec<String> {
    values.iter().map(|v| v.to_string()).collect()
}

fn map(entries: &[(&str, &str)]) -> StringMap {
    StringMap { entries: entries.iter().map(|(k, v)| (k.to_string(), v.to_string())).collect() }
}

fn recipe(upper: bool) -> Recipe {
    let t = |s: &str| if upper { s.to_uppercase() } else { s.to_string() };
    let l = |values: &[&str]| -> Vec<String> { values.iter().map(|v| t(v)).collect() };
    Recipe {
        name: t("name"),
        version: t("version"),
        source_dir: t("source-dir"),
        revision: 7,
        description: t("description"),
        home: Some(t("home")),
        license: l(&["license-a", "license-b"]),
        maintainers: l(&["maintainer"]),
        depends: l(&["depends"]),
        provides: l(&["provides"]),
        artifacts: vec![Artifact {
            source: ArtifactSource::Fetch(FetchArtifact { url: t("url"), file_name: t("file") }),
            verification: Verification { sha256: Some([0xab; 32]) },
        }],
        style: BuildStyle {
            style: BuildStyleType::GnuConfigure,
            vars: BuildStyleVariables {
                cc_flags: Some(l(&["cc-flag"])),
                cxx_flags: Some(l(&["cxx-flag"])),
                configure_script: Some(t("configure-script")),
                configure_args: Some(l(&["configure-arg"])),
                make_command: Some(t("make-command")),
                make_use_env: Some(true),
                make_args: Some(l(&["make-arg"])),
                make_env: Some(StringMap {
                    entries: vec![(t("key"), t("value")), (t("other"), t("more"))],
                }),
            },
        },
        sides: vec![Side {
            name: t("side"),
            description: t("side-description"),
            depends: l(&["side-depends"]),
            claims: l(&["side-claim"]),
        }],
        options: RecipeOptions { strip: Some(false) },
        playbooks: vec![
            ActionPlaybook {
                stage: Stage::Build,
                actions: vec![
                    Action::Default,
                    Action::Cc(CcAction { input: l(&["in.c"]), output: t("out") }),
                    Action::Configure,
                    Action::Make,
                    Action::MakeInstall,
                    Action::Bin(BinAction { binaries: l(&["bin"]) }),
                    Action::Man(ManAction { man_files: l(&["man.1"]) }),
                    Action::Link(LinkAction { source: l(&["link-source"]), target: t("target") }),
                    Action::Rm(RmAction { targets: l(&["rm"]) }),
                    Action::Dir(DirAction { targets: l(&["dir"]) }),
                ],
            },
            ActionPlaybook { stage: Stage::Install, actions: vec![] },
        ],
    }
}

#[test]
fn a_walker_visits_every_string_of_a_list() {
    let mut list = vec!["a".to_string(), "bc".to_string()];
    list.traverse(&mut Uppercase);
    assert_eq!(list, vec!["A".to_string(), "BC".to_string()]);
}

#[test]
fn a_walker_passes_over_what_is_not_there() {
    let mut nothing: Option<String> = None;
    nothing.traverse(&mut Uppercase);
    assert_eq!(nothing, None);
    let mut something = Some("x".to_string());
    something.traverse(&mut Uppercase);
    assert_eq!(something, Some("X".to_string()));
    let mut number: usize = 5;
    number.traverse(&mut Uppercase);
    assert_eq!(number, 5);
    let mut truth = true;
    truth.traverse(&mut Uppercase);
    assert!(truth);
    let mut stage = Stage::Build;
    stage.traverse(&mut Uppercase);
    assert_eq!(stage, Stage::Build);
}

#[test]
fn a_walk_rewrites_every_string_of_a_recipe_and_nothing_else() {
    let mut walked = recipe(false);
    walked.traverse(&mut Uppercase);
    assert_eq!(walked, recipe(true));
    assert_eq!(walked.revision, 7);
    assert_eq!(walked.style.style, BuildStyleType::GnuConfigure);
    assert_eq!(walked.artifacts[0].verification, Verification { sha256: Some([0xab; 32]) });
    assert_eq!(walked.options.strip, Some(false));
    assert_eq!(walked.playbooks[0].stage, Stage::Build);
}

#[test]
fn a_walk_visits_the_strings_once_each_in_the_order_of_the_fields() {
    let mut walked = recipe(false);
    let mut record = Record(vec![]);
    walked.traverse(&mut record);
    assert_eq!(walked, recipe(false));
    assert_eq!(
        record.0,
        strings(&[
            "name",
            "version",
            "source-dir",
            "description",
            "home",
            "license-a",
            "license-b",
            "maintainer",
            "depends",
            "provides",
            "url",
            "file",
            "cc-flag",
            "cxx-flag",
            "configure-script",
            "configure-arg",
            "make-command",
            "make-arg",
            "key",
            "value",
            "other",
            "more",
            "side",
            "side-description",
            "side-depends",
            "side-claim",
            "in.c",
            "out",
            "bin",
            "man.1",
            "link-source",
            "target",
            "rm",
            "dir",
        ])
    );
}

struct Constant;

impl ObjectWalker for Constant {
    fn enter_string(&mut self, value: &mut String) {
        if value.len() == 1 {
            *value = "k".to_string();
        }
    }
}

#[test]
fn keys_that_a_walk_makes_the_same_are_one_entry() {
    let mut entries = map(&[("a", "first"), ("b", "second"), ("long", "third"), ("c", "fourth")]);
    entries.traverse(&mut Constant);
    assert_eq!(entries, map(&[("k", "fourth"), ("long", "third")]));
}

#[test]
fn a_map_holds_one_value_for_a_key() {
    let mut entries = StringMap::new();
    entries.insert("CC".to_string(), "gcc".to_string());
    entries.insert("LD".to_string(), "ld".to_string());
    entries.insert("CC".to_string(), "clang".to_string());
    assert_eq!(entries, map(&[("CC", "clang"), ("LD", "ld")]));
}

struct Numbering(usize);

impl ObjectWalker for Numbering {
    fn enter_string(&mut self, value: &mut String) {
        value.push_str(&self.0.to_string());
        self.0 += 1;
    }
}

#[test]
fn a_walker_that_changes_is_shown_the_strings_in_the_order_of_the_walk() {
    let mut side = hob::definition::Side {
        name: "n".to_string(),
        description: "d".to_string(),
        depends: strings(&["a", "b"]),
        claims: strings(&["c"]),
    };
    let mut walker = Numbering(0);
    side.traverse(&mut walker);
    assert_eq!(side.name, "n0");
    assert_eq!(side.description, "d1");
    assert_eq!(side.depends, strings(&["a2", "b3"]));
    assert_eq!(side.claims, strings(&["c4"]));
    assert_eq!(walker.0, 5);
}
