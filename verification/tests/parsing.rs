use hob::definition::actions::{Action, ActionPlaybook, CcAction, LinkAction, Stage};
use hob::definition::build_style::{BuildStyle, BuildStyleType};
use hob::definition::parsing::{
    extract_single_bool_value, extract_single_string_value, extract_string_values,
    extract_string_values_with_extend, Entry, HobParseError, Node, Span, Value,
};
use hob::definition::reader::file_name_from_url;
use hob::definition::{
    Artifact, ArtifactSource, Document, FetchArtifact, Recipe, RecipeOptions, Side, Verification,
};

fn span(offset: usize, len: usize) -> Span {
    Span { offset, len }
}

fn text(value: &str, at: usize) -> Entry {
    Entry { name: None, value: Value::String(value.to_string()), span: span(at, value.len() + 2) }
}

fn truth(value: bool, at: usize) -> Entry {
    Entry { name: None, value: Value::Bool(value), span: span(at, 4) }
}

fn number(at: usize) -> Entry {
    Entry { name: None, value: Value::Other, span: span(at, 1) }
}

fn prop(name: &str, value: Value, at: usize) -> Entry {
    Entry { name: Some(name.to_string()), value, span: span(at, name.len() + 5) }
}

fn node(name: &str, entries: Vec<Entry>, children: Vec<Node>) -> Node {
    Node {
        name: name.to_string(),
        name_span: span(100, name.len()),
        span: span(100, 50),
        entries,
        children,
    }
}

fn leaf(name: &str, values: &[&str]) -> Node {
    let mut entries = vec![];
    let mut at: usize = 200;
    for v in values {
        entries.push(text(v, at));
        at += v.len() + 3;
    }
    node(name, entries, vec![])
}

fn plain(span: Span, kind: &str) -> HobParseError {
    HobParseError { span, label: None, help: None, kind: kind.to_string() }
}

fn strings(values: &[&str]) -> Vec<String> {
    values.iter().map(|v| v.to_string()).collect()
}

#[test]
fn a_single_string_is_read() {
    let n = leaf("version", &["1.0"]);
    assert_eq!(extract_single_string_value(&n, "version"), Ok("1.0".to_string()));
}

#[test]
fn a_missing_value_is_a_mistake_at_the_name() {
    let n = leaf("version", &[]);
    assert_eq!(
        extract_single_string_value(&n, "version"),
        Err(plain(span(100, 7), "version missing"))
    );
    assert_eq!(extract_single_bool_value(&n, "strip"), Err(plain(span(100, 7), "strip missing")));
}

#[test]
fn a_property_in_the_place_of_a_value_is_a_mistake() {
    let n = node("version", vec![prop("x", Value::String("1".to_string()), 7)], vec![]);
    assert_eq!(
        extract_single_string_value(&n, "version"),
        Err(plain(span(7, 6), "version expected a value, property found instead"))
    );
    assert_eq!(
        extract_single_bool_value(&n, "strip"),
        Err(plain(span(7, 6), "strip expected a value, property found instead"))
    );
}

#[test]
fn a_value_of_the_wrong_type_is_a_mistake() {
    let n = node("version", vec![truth(true, 9)], vec![]);
    assert_eq!(
        extract_single_string_value(&n, "version"),
        Err(plain(span(9, 4), "version should be a string"))
    );
    let m = node("strip", vec![text("yes", 9)], vec![]);
    assert_eq!(
        extract_single_bool_value(&m, "strip"),
        Err(plain(span(9, 5), "strip should be a bool"))
    );
    assert_eq!(extract_single_bool_value(&n, "strip"), Ok(true));
}

#[test]
fn too_many_values_are_a_mistake_that_covers_them_all() {
    let n = node("version", vec![text("1", 10), text("2", 14), text("3", 20)], vec![]);
    assert_eq!(
        extract_single_string_value(&n, "version"),
        Err(plain(span(10, 13), "only 1 string expected for version"))
    );
    assert_eq!(
        extract_single_bool_value(&n, "strip"),
        Err(plain(span(10, 13), "only 1 bool expected for strip"))
    );
}

#[test]
fn a_covering_span_does_not_overflow() {
    let first = Entry { name: None, value: Value::Other, span: span(10, 1) };
    let last = Entry { name: None, value: Value::Other, span: span(usize::MAX, 5) };
    let n = node("version", vec![first, last], vec![]);
    assert_eq!(
        extract_single_string_value(&n, "version"),
        Err(plain(span(10, usize::MAX - 10), "only 1 string expected for version"))
    );
    let early = Entry { name: None, value: Value::Other, span: span(2, 3) };
    let late = Entry { name: None, value: Value::Other, span: span(50, 1) };
    let m = node("version", vec![late, early], vec![]);
    assert_eq!(
        extract_single_string_value(&m, "version"),
        Err(plain(span(50, 0), "only 1 string expected for version"))
    );
}

#[test]
fn string_lists_are_read_in_order() {
    let n = leaf("license", &["MIT", "Apache-2.0"]);
    assert_eq!(extract_string_values(&n, "depends"), Ok(strings(&["MIT", "Apache-2.0"])));
    assert_eq!(extract_string_values(&leaf("license", &[]), "depends"), Ok(vec![]));
}

#[test]
fn the_first_bad_entry_of_a_list_is_the_mistake() {
    let n = node(
        "license",
        vec![text("a", 1), number(5), prop("x", Value::Other, 7)],
        vec![],
    );
    assert_eq!(
        extract_string_values(&n, "depends"),
        Err(plain(span(5, 1), "depends expects only string values"))
    );
    let m = node("license", vec![text("a", 1), prop("x", Value::Other, 7), number(20)], vec![]);
    assert_eq!(
        extract_string_values(&m, "depends"),
        Err(plain(span(7, 6), "depends expected values, property found instead"))
    );
}

#[test]
fn lists_extend_unless_they_say_otherwise() {
    let n = leaf("depends", &["a", "b"]);
    assert_eq!(
        extract_string_values_with_extend(&n, "depends"),
        Ok((strings(&["a", "b"]), true))
    );
    let m = node(
        "depends",
        vec![prop("extends", Value::Bool(false), 1), text("b", 20)],
        vec![],
    );
    assert_eq!(extract_string_values_with_extend(&m, "depends"), Ok((strings(&["b"]), false)));
    let twice = node(
        "depends",
        vec![
            prop("extends", Value::Bool(false), 1),
            prop("extends", Value::Bool(true), 15),
            text("b", 30),
        ],
        vec![],
    );
    assert_eq!(extract_string_values_with_extend(&twice, "depends"), Ok((strings(&["b"]), true)));
}

#[test]
fn extends_must_be_a_truth_value_and_come_first() {
    let n = node("depends", vec![prop("extends", Value::String("no".to_string()), 3)], vec![]);
    assert_eq!(
        extract_string_values_with_extend(&n, "depends"),
        Err(plain(span(3, 12), "extends expects a bool"))
    );
    let late = node(
        "depends",
        vec![text("a", 1), prop("extends", Value::Bool(false), 9)],
        vec![],
    );
    assert_eq!(
        extract_string_values_with_extend(&late, "depends"),
        Err(plain(span(9, 12), "depends expected values, property found instead"))
    );
    let other = node("depends", vec![number(4)], vec![]);
    assert_eq!(
        extract_string_values_with_extend(&other, "depends"),
        Err(plain(span(4, 1), "depends expects only string values"))
    );
}

fn recipe_node(children: Vec<Node>) -> Node {
    node("recipe", vec![text("foo", 8)], children)
}

#[test]
fn a_second_recipe_replaces_its_depends_where_it_says_so() {
    let first = recipe_node(vec![leaf("version", &["1.0"]), leaf("depends", &["a"])]);
    let second = recipe_node(vec![node(
        "depends",
        vec![prop("extends", Value::Bool(false), 1), text("b", 20)],
        vec![],
    )]);
    let (document, errors) = Document::parse_document_with_errors(&vec![first, second]);
    let document = document.unwrap();
    assert_eq!(document.recipes.len(), 2);
    assert_eq!(document.recipes[0].depends, strings(&["a"]));
    assert_eq!(document.recipes[1].depends, strings(&["b"]));
    assert_eq!(document.recipes[0].version, "1.0");
    assert_eq!(errors, vec![plain(span(100, 50), "recipe missing version")]);
}

#[test]
fn a_recipe_with_nothing_but_a_version_has_the_defaults() {
    let (recipe, errors) =
        Recipe::parse_node_with_errors(&recipe_node(vec![leaf("version", &["1.0"])]));
    assert_eq!(errors, vec![]);
    let recipe = recipe.unwrap();
    assert_eq!(
        recipe,
        Recipe {
            name: "foo".to_string(),
            version: "1.0".to_string(),
            source_dir: "foo-1.0".to_string(),
            revision: 0,
            description: "".to_string(),
            home: None,
            license: vec![],
            maintainers: vec![],
            depends: vec![],
            provides: vec![],
            artifacts: vec![],
            style: BuildStyle::default(),
            sides: vec![],
            options: RecipeOptions { strip: None },
            playbooks: vec![],
        }
    );
    assert_eq!(recipe.style.style, BuildStyleType::Noop);
}

#[test]
fn a_recipe_without_name_and_version_is_read_with_mistakes() {
    let n = node("recipe", vec![], vec![]);
    let (recipe, errors) = Recipe::parse_node_with_errors(&n);
    let recipe = recipe.unwrap();
    assert_eq!(recipe.name, "<unnamed>");
    assert_eq!(recipe.version, "0.0.0");
    assert_eq!(recipe.source_dir, "<unnamed>-0.0.0");
    assert_eq!(
        errors,
        vec![
            plain(span(100, 6), "name of recipe missing"),
            plain(span(100, 50), "recipe missing version"),
        ]
    );
    assert!(Recipe::parse_node_strict(&n).is_err());
    assert!(Recipe::parse_node(&n).is_ok());
}

#[test]
fn the_fields_of_a_recipe_are_read() {
    let n = recipe_node(vec![
        leaf("version", &["2.1"]),
        leaf("description", &["a thing"]),
        leaf("home", &["https://example.org"]),
        leaf("source-dir", &["thing-src"]),
        leaf("depends", &["libc"]),
        leaf("depends", &["zlib"]),
        leaf("provides", &["thing"]),
        leaf("license", &["MIT"]),
        leaf("license", &["BSD"]),
        leaf("maintainer", &["me", "you"]),
        node("options", vec![], vec![node("strip", vec![truth(false, 3)], vec![])]),
        leaf("unknown", &["ignored"]),
    ]);
    let (recipe, errors) = Recipe::parse_node_with_errors(&n);
    assert_eq!(errors, vec![]);
    let recipe = recipe.unwrap();
    assert_eq!(recipe.description, "a thing");
    assert_eq!(recipe.home, Some("https://example.org".to_string()));
    assert_eq!(recipe.source_dir, "thing-src");
    assert_eq!(recipe.depends, strings(&["libc", "zlib"]));
    assert_eq!(recipe.provides, strings(&["thing"]));
    assert_eq!(recipe.license, strings(&["MIT", "BSD"]));
    assert_eq!(recipe.maintainers, strings(&["me", "you"]));
    assert_eq!(recipe.options, RecipeOptions { strip: Some(false) });
}

#[test]
fn mistakes_in_fields_name_the_field_as_the_reader_does() {
    let n = recipe_node(vec![
        leaf("version", &["1"]),
        leaf("description", &[]),
        leaf("source-dir", &["a", "b"]),
    ]);
    let (_, errors) = Recipe::parse_node_with_errors(&n);
    assert_eq!(errors.len(), 2);
    assert_eq!(errors[0].kind, "version missing");
    assert_eq!(errors[1].kind, "only 1 string expected for source-dir");
}

#[test]
fn a_second_style_is_a_mistake() {
    let n = recipe_node(vec![
        leaf("version", &["1"]),
        leaf("style", &["configure"]),
        leaf("style", &["noop"]),
    ]);
    let (recipe, errors) = Recipe::parse_node_with_errors(&n);
    assert_eq!(recipe.unwrap().style.style, BuildStyleType::Configure);
    assert_eq!(
        errors,
        vec![HobParseError {
            span: span(100, 50),
            label: Some("second definition of style here"),
            help: None,
            kind: "redefinition of style, can only have one build style".to_string(),
        }]
    );
}

#[test]
fn a_style_reads_its_settings_from_its_children() {
    let style = node(
        "style",
        vec![text("gnu-configure", 6)],
        vec![
            leaf("configure-script", &["./autogen.sh"]),
            leaf("configure-args", &["--disable-nls"]),
            leaf("configure-args", &["--with-x"]),
        ],
    );
    let (read, errors) = BuildStyle::parse_node_with_errors(&style);
    assert_eq!(errors, vec![]);
    let read = read.unwrap();
    assert_eq!(read.style, BuildStyleType::GnuConfigure);
    assert_eq!(read.vars.configure_script, Some("./autogen.sh".to_string()));
    assert_eq!(read.vars.configure_args, Some(strings(&["--disable-nls", "--with-x"])));
    assert_eq!(read.vars.make_args, None);
}

#[test]
fn an_unknown_style_counts_as_noop() {
    let style = node("style", vec![text("cmake", 6)], vec![]);
    let (read, errors) = BuildStyle::parse_node_with_errors(&style);
    assert_eq!(read.unwrap().style, BuildStyleType::Noop);
    assert_eq!(errors, vec![plain(span(6, 7), "unknown build style found")]);
    let nameless = node("style", vec![], vec![]);
    let (read, errors) = BuildStyle::parse_node_with_errors(&nameless);
    assert_eq!(read.unwrap().style, BuildStyleType::Noop);
    assert_eq!(
        errors,
        vec![
            plain(span(100, 5), "name of build style missing"),
            plain(span(100, 5), "unknown build style found"),
        ]
    );
}

#[test]
fn build_styles_are_named() {
    assert_eq!(BuildStyleType::parse("noop"), Some(BuildStyleType::Noop));
    assert_eq!(BuildStyleType::parse("configure"), Some(BuildStyleType::Configure));
    assert_eq!(BuildStyleType::parse("gnu-configure"), Some(BuildStyleType::GnuConfigure));
    assert_eq!(BuildStyleType::parse("gnu_configure"), None);
}

#[test]
fn stages_are_named() {
    assert_eq!(Stage::from_str("fetch"), Some(Stage::Fetch));
    assert_eq!(Stage::from_str("prepare"), Some(Stage::Prepare));
    assert_eq!(Stage::from_str("extract"), Some(Stage::Extract));
    assert_eq!(Stage::from_str("configure"), Some(Stage::Configure));
    assert_eq!(Stage::from_str("build"), Some(Stage::Build));
    assert_eq!(Stage::from_str("install"), Some(Stage::Install));
    assert_eq!(Stage::from_str("split"), None);
    assert_eq!(Stage::from_str("package"), None);
    assert_eq!(Stage::from_str("Fetch"), None);
}

const HELLO_SHA: &str = "5891b5b522d5df086d0ff0b110fbd9d21bb4fc7163af34d08286a2e846f6be03";

fn fetch_node(children: Vec<Node>) -> Node {
    node("fetch", vec![], children)
}

#[test]
fn an_artifact_is_read_with_its_digest() {
    let n = fetch_node(vec![
        leaf("url", &["http://x/file.tar.gz?mirror=1"]),
        leaf("sha256", &[HELLO_SHA]),
    ]);
    let (artifact, errors) = Artifact::parse_node_with_errors(&n);
    assert_eq!(errors, vec![]);
    let mut digest = [0u8; 32];
    digest[0] = 0x58;
    digest[1] = 0x91;
    digest[2] = 0xb5;
    digest[31] = 0x03;
    let artifact = artifact.unwrap();
    assert_eq!(
        artifact.source,
        ArtifactSource::Fetch(FetchArtifact {
            url: "http://x/file.tar.gz?mirror=1".to_string(),
            file_name: "file.tar.gz".to_string(),
        })
    );
    let read = artifact.verification.sha256.unwrap();
    assert_eq!(read[0], digest[0]);
    assert_eq!(read[1], digest[1]);
    assert_eq!(read[2], digest[2]);
    assert_eq!(read[31], digest[31]);
    assert_eq!(hex::encode(read), HELLO_SHA);
}

#[test]
fn upper_case_digests_are_read_too() {
    let n = fetch_node(vec![leaf("url", &["http://x/f"]), leaf("sha256", &[&HELLO_SHA.to_uppercase()])]);
    let (artifact, errors) = Artifact::parse_node_with_errors(&n);
    assert_eq!(errors, vec![]);
    assert_eq!(hex::encode(artifact.unwrap().verification.sha256.unwrap()), HELLO_SHA);
}

#[test]
fn a_digest_of_the_wrong_length_is_a_mistake() {
    let n = fetch_node(vec![leaf("url", &["http://x/f"]), leaf("sha256", &["abcd"])]);
    let (artifact, errors) = Artifact::parse_node_with_errors(&n);
    assert_eq!(artifact.unwrap().verification, Verification { sha256: None });
    assert_eq!(errors, vec![plain(span(200, 6), "expected 32 byte long hex string for sha256")]);
}

#[test]
fn a_digest_that_is_no_hexadecimal_number_is_a_mistake() {
    let n = fetch_node(vec![leaf("url", &["http://x/f"]), leaf("sha256", &["xyz!"])]);
    let (_, errors) = Artifact::parse_node_with_errors(&n);
    assert_eq!(
        errors,
        vec![HobParseError {
            span: span(200, 6),
            label: None,
            help: Some("Invalid character 'x' at position 0".to_string()),
            kind: "invalid hex string".to_string(),
        }]
    );
    let odd = fetch_node(vec![leaf("url", &["http://x/f"]), leaf("sha256", &["abc"])]);
    let (_, errors) = Artifact::parse_node_with_errors(&odd);
    assert_eq!(errors[0].help, Some("Odd number of digits".to_string()));
    assert_eq!(errors[0].kind, "invalid hex string");
}

#[test]
fn a_fetch_needs_a_url() {
    let n = fetch_node(vec![leaf("name", &["f.tar"])]);
    let (artifact, errors) = Artifact::parse_node_with_errors(&n);
    assert_eq!(artifact, None);
    assert_eq!(errors, vec![plain(span(100, 50), "fetch artifact requires an url to be given")]);
}

#[test]
fn a_fetch_may_name_its_file() {
    let n = fetch_node(vec![leaf("url", &["http://x/download"]), leaf("name", &["f.tar"])]);
    let (fetch, errors) = FetchArtifact::parse_node_with_errors(&n);
    assert_eq!(errors, vec![]);
    assert_eq!(
        fetch,
        Some(FetchArtifact { url: "http://x/download".to_string(), file_name: "f.tar".to_string() })
    );
}

#[test]
fn an_unknown_kind_of_artifact_is_a_mistake() {
    let n = node("git", vec![], vec![leaf("url", &["http://x/f"])]);
    let (artifact, errors) = Artifact::parse_node_with_errors(&n);
    assert_eq!(artifact, None);
    assert_eq!(errors, vec![plain(span(100, 3), "Unknown type of artifact")]);
}

#[test]
fn the_artifacts_of_a_recipe_are_read_in_order() {
    let artifacts = node(
        "artifacts",
        vec![],
        vec![
            fetch_node(vec![leaf("url", &["http://x/a.tar"])]),
            node("git", vec![], vec![]),
            fetch_node(vec![leaf("url", &["http://x/b.zip"])]),
        ],
    );
    let (recipe, errors) =
        Recipe::parse_node_with_errors(&recipe_node(vec![leaf("version", &["1"]), artifacts]));
    let recipe = recipe.unwrap();
    assert_eq!(recipe.artifacts.len(), 2);
    assert_eq!(recipe.artifacts[0].file_name(), "a.tar");
    assert_eq!(recipe.artifacts[1].file_name(), "b.zip");
    assert_eq!(errors, vec![plain(span(100, 3), "Unknown type of artifact")]);
}

#[test]
fn the_file_name_is_the_end_of_the_url() {
    assert_eq!(file_name_from_url("http://x/file.tar.gz"), "file.tar.gz");
    assert_eq!(file_name_from_url("http://x/file.tar.gz?a=b?c"), "file.tar.gz");
    assert_eq!(file_name_from_url("http://x/dir/"), "");
    assert_eq!(file_name_from_url("plain"), "plain");
    assert_eq!(file_name_from_url("a?b/c"), "c");
    assert_eq!(file_name_from_url(""), "");
}

fn side_node(children: Vec<Node>) -> Node {
    node("side", vec![text("foo-doc", 5)], children)
}

fn recipe_with_side(side: Node) -> Recipe {
    let n = recipe_node(vec![
        side,
        leaf("version", &["1"]),
        leaf("description", &["the parent"]),
        leaf("depends", &["a", "b"]),
    ]);
    let (recipe, errors) = Recipe::parse_node_with_errors(&n);
    assert_eq!(errors, vec![]);
    recipe.unwrap()
}

#[test]
fn a_side_inherits_what_it_does_not_say() {
    let recipe = recipe_with_side(side_node(vec![leaf("claim", &["usr/share/doc/**"])]));
    assert_eq!(
        recipe.sides,
        vec![Side {
            name: "foo-doc".to_string(),
            description: "the parent".to_string(),
            depends: strings(&["a", "b"]),
            claims: strings(&["usr/share/doc/**"]),
        }]
    );
}

#[test]
fn a_side_appends_to_the_depends_of_its_recipe() {
    let recipe = recipe_with_side(side_node(vec![
        leaf("description", &["the docs"]),
        node("depends", vec![prop("extends", Value::Bool(true), 1), text("c", 20)], vec![]),
    ]));
    assert_eq!(recipe.sides[0].description, "the docs");
    assert_eq!(recipe.sides[0].depends, strings(&["a", "b", "c"]));
}

#[test]
fn a_side_replaces_the_depends_of_its_recipe_where_it_says_so() {
    let recipe = recipe_with_side(side_node(vec![node(
        "depends",
        vec![prop("extends", Value::Bool(false), 1), text("c", 20)],
        vec![],
    )]));
    assert_eq!(recipe.sides[0].depends, strings(&["c"]));
}

#[test]
fn a_mistake_in_the_name_of_a_side_is_not_recorded() {
    let nameless = node("side", vec![], vec![leaf("claim", &[])]);
    let recipe = recipe_with_side(nameless);
    assert_eq!(recipe.sides[0].name, "");
    assert_eq!(recipe.sides[0].claims, strings(&[]));
}

#[test]
fn a_playbook_is_read_with_its_actions() {
    let cc = node(
        "cc",
        vec![text("x.c", 1), prop("output", Value::String("x".to_string()), 9), text("y.c", 30)],
        vec![],
    );
    let install = node(
        "install",
        vec![],
        vec![
            cc,
            leaf(".default", &[]),
            leaf("make", &[]),
            leaf("make-install", &[]),
            leaf("bin", &["x"]),
            leaf("man", &["x.1"]),
            leaf("rm", &["usr/lib/x.la"]),
            leaf("dir", &["var/lib/x"]),
            leaf("link", &["x", "usr/bin/y"]),
        ],
    );
    let (playbook, errors) = ActionPlaybook::parse_node_with_errors(&install);
    assert_eq!(errors, vec![]);
    let playbook = playbook.unwrap();
    assert_eq!(playbook.stage, Stage::Install);
    assert_eq!(playbook.actions.len(), 9);
    assert_eq!(
        playbook.actions[0],
        Action::Cc(CcAction { input: strings(&["x.c", "y.c"]), output: "x".to_string() })
    );
    assert_eq!(playbook.actions[1], Action::Default);
    assert_eq!(playbook.actions[2], Action::Make);
    assert_eq!(playbook.actions[3], Action::MakeInstall);
    assert_eq!(
        playbook.actions[8],
        Action::Link(LinkAction { source: strings(&["x"]), target: "usr/bin/y".to_string() })
    );
}

#[test]
fn the_mistakes_of_actions_are_told() {
    let (action, errors) = Action::parse_node_with_errors(&leaf("frobnicate", &[]));
    assert_eq!(action, None);
    assert_eq!(errors, vec![plain(span(100, 50), "unknown action")]);

    let (action, errors) = Action::parse_node_with_errors(&leaf("link", &["only"]));
    assert_eq!(action, None);
    assert_eq!(
        errors,
        vec![plain(span(100, 50), "link needs at least 2 arguments, source and target")]
    );

    let (playbook, errors) = ActionPlaybook::parse_node_with_errors(&leaf("package", &[]));
    assert_eq!(playbook, None);
    assert_eq!(errors, vec![plain(span(100, 7), "unknown stage")]);

    let (action, errors) = Action::parse_node_with_errors(&node("bin", vec![number(3)], vec![]));
    assert_eq!(action, Some(Action::Bin(hob::definition::actions::BinAction { binaries: vec![] })));
    assert_eq!(errors, vec![plain(span(3, 1), "bin arguments expects only string values")]);
}

#[test]
fn cc_needs_an_output_and_an_input() {
    let no_output = leaf("cc", &["x.c"]);
    assert_eq!(CcAction::parse_node_with_errors(&no_output), (None, vec![]));
    let no_input = node("cc", vec![prop("output", Value::String("x".to_string()), 1)], vec![]);
    assert_eq!(CcAction::parse_node_with_errors(&no_input), (None, vec![]));
    let twice = node(
        "cc",
        vec![
            text("x.c", 1),
            prop("output", Value::String("x".to_string()), 9),
            prop("output", Value::Bool(true), 30),
            prop("other", Value::Bool(true), 50),
            number(70),
        ],
        vec![],
    );
    let (cc, errors) = CcAction::parse_node_with_errors(&twice);
    assert_eq!(cc, Some(CcAction { input: strings(&["x.c"]), output: "x".to_string() }));
    assert_eq!(
        errors,
        vec![
            HobParseError {
                span: span(30, 11),
                label: Some("second output definition"),
                help: None,
                kind: "output is defined multiple times for cc".to_string(),
            },
            plain(span(30, 11), "output value should be a string"),
            plain(span(70, 1), "input value should be a string"),
        ]
    );
}

#[test]
fn a_later_playbook_takes_the_place_of_an_earlier_one_for_its_stage() {
    let n = recipe_node(vec![
        leaf("version", &["1"]),
        node("build", vec![], vec![leaf("make", &[])]),
        node("fetch", vec![], vec![leaf(".default", &[])]),
        node("build", vec![], vec![leaf(".default", &[]), leaf("make", &[])]),
    ]);
    let (recipe, errors) = Recipe::parse_node_with_errors(&n);
    assert_eq!(errors, vec![]);
    let recipe = recipe.unwrap();
    assert_eq!(
        recipe.playbooks,
        vec![
            ActionPlaybook { stage: Stage::Build, actions: vec![Action::Default, Action::Make] },
            ActionPlaybook { stage: Stage::Fetch, actions: vec![Action::Default] },
        ]
    );
    assert_eq!(recipe.playbook(Stage::Build), Some(&recipe.playbooks[0]));
    assert_eq!(recipe.playbook(Stage::Install), None);
}

#[test]
fn only_recipes_are_read_from_a_document() {
    let nodes = vec![leaf("comment", &["x"]), recipe_node(vec![leaf("version", &["1"])])];
    let document = Document::parse_document_strict(&nodes).unwrap();
    assert_eq!(document.recipes.len(), 1);
    assert_eq!(document.recipes[0].name, "foo");
    let bad = vec![recipe_node(vec![])];
    assert_eq!(
        Document::parse_document_strict(&bad),
        Err(vec![plain(span(100, 50), "recipe missing version")])
    );
    assert_eq!(Document::parse_document(&bad).unwrap().recipes.len(), 1);
}

#[test]
fn the_template_values_of_a_recipe() {
    let (recipe, _) = Recipe::parse_node_with_errors(&recipe_node(vec![
        leaf("version", &["1.2"]),
        leaf("description", &["d"]),
    ]));
    let mut recipe = recipe.unwrap();
    recipe.revision = 12;
    let vars = recipe.template_vars();
    assert_eq!(vars.self_ref, "foo-1.2-r12");
    assert_eq!(vars.name, "foo");
    assert_eq!(vars.version, "1.2");
    assert_eq!(vars.description, "d");
    assert_eq!(vars.revision, 12);
}
