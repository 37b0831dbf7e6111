//! Reading whole recipes and documents.

use crate::definition::actions::parsing::playbook_read;
use crate::definition::actions::{stage_named, ActionPlaybook, ActionPlaybookView, Stage};
use crate::definition::build_style::{BuildStyle, BuildStyleView};
use crate::definition::parsing::{
    error_at, extend_errors, no_errors, plain_error, push_error, HobParseError,
    HobParseErrorView, Node, Span,
};
use crate::definition::reader::{
    artifacts_read, extended_errors, list_added, list_errors, list_extended, opt_text_given,
    options_read, side_read, style_read, text_errors, text_given,
};
use crate::definition::{
    distinct_stages, lemma_playbook_index, playbook_index, Artifact, ArtifactView, Document,
    Recipe, RecipeOptions, RecipeView, Side, SideView,
};
use crate::text::{concat3, str_equal};
use vstd::prelude::*;

verus! {

/// How far the children of a `recipe` node have been read.
pub struct RecipeSoFar {
    pub errors: Seq<HobParseErrorView>,
    pub found_version: bool,
    pub version: Seq<char>,
    pub description: Seq<char>,
    pub home: Option<Seq<char>>,
    pub source_dir: Option<Seq<char>>,
    pub license: Seq<Seq<char>>,
    pub maintainers: Seq<Seq<char>>,
    pub depends: Seq<Seq<char>>,
    pub provides: Seq<Seq<char>>,
    pub artifacts: Seq<ArtifactView>,
    pub style: Option<BuildStyleView>,
    /// Whether there was an `options` node, and what it said of stripping.
    pub options: Option<Option<bool>>,
    pub playbooks: Seq<ActionPlaybookView>,
}

/// The mistake of giving a recipe a second build style.
pub open spec fn second_style(span: Span) -> HobParseErrorView {
    HobParseErrorView {
        span,
        label: Some("second definition of style here"@),
        help: None,
        kind: "redefinition of style, can only have one build style"@,
    }
}

/// The playbooks `playbooks` with `playbook` as the one of its stage: in the
/// place of the one that was there, or after all others.
pub open spec fn playbooks_with(
    playbooks: Seq<ActionPlaybookView>,
    playbook: ActionPlaybookView,
) -> Seq<ActionPlaybookView> {
    let k = playbook_index(playbooks, playbook.stage);
    if k < playbooks.len() {
        playbooks.update(k, playbook)
    } else {
        playbooks.push(playbook)
    }
}

/// Where nothing of a recipe has been read but its name, with the mistakes
/// `errors` so far.
pub open spec fn recipe_begun(errors: Seq<HobParseErrorView>) -> RecipeSoFar {
    RecipeSoFar {
        errors,
        found_version: false,
        version: "0.0.0"@,
        description: Seq::empty(),
        home: None,
        source_dir: None,
        license: Seq::empty(),
        maintainers: Seq::empty(),
        depends: Seq::empty(),
        provides: Seq::empty(),
        artifacts: Seq::empty(),
        style: None,
        options: None,
        playbooks: Seq::empty(),
    }
}

/// `sofar` after the child `node`. The name of the child says what it sets;
/// a child of another name, a side too, sets nothing here.
pub open spec fn recipe_after(sofar: RecipeSoFar, node: Node) -> RecipeSoFar {
    let name = node.name@;
    if name == "version"@ {
        RecipeSoFar {
            found_version: true,
            version: text_given(node, "version"@, sofar.version),
            errors: text_errors(node, "version"@, sofar.errors),
            ..sofar
        }
    } else if name == "description"@ {
        RecipeSoFar {
            description: text_given(node, "version"@, sofar.description),
            errors: text_errors(node, "version"@, sofar.errors),
            ..sofar
        }
    } else if name == "home"@ {
        RecipeSoFar {
            home: opt_text_given(node, "version"@, sofar.home),
            errors: text_errors(node, "version"@, sofar.errors),
            ..sofar
        }
    } else if name == "source-dir"@ {
        RecipeSoFar {
            source_dir: opt_text_given(node, "source-dir"@, sofar.source_dir),
            errors: text_errors(node, "source-dir"@, sofar.errors),
            ..sofar
        }
    } else if name == "depends"@ {
        RecipeSoFar {
            depends: list_extended(node, "depends"@, sofar.depends),
            errors: extended_errors(node, "depends"@, sofar.errors),
            ..sofar
        }
    } else if name == "provides"@ {
        RecipeSoFar {
            provides: list_extended(node, "provides"@, sofar.provides),
            errors: extended_errors(node, "provides"@, sofar.errors),
            ..sofar
        }
    } else if name == "license"@ {
        RecipeSoFar {
            license: list_added(node, "depends"@, sofar.license),
            errors: list_errors(node, "depends"@, sofar.errors),
            ..sofar
        }
    } else if name == "maintainer"@ {
        RecipeSoFar {
            maintainers: list_added(node, "depends"@, sofar.maintainers),
            errors: list_errors(node, "depends"@, sofar.errors),
            ..sofar
        }
    } else if name == "artifacts"@ {
        RecipeSoFar {
            artifacts: sofar.artifacts + artifacts_read(node.children@).0,
            errors: sofar.errors + artifacts_read(node.children@).1,
            ..sofar
        }
    } else if name == "style"@ {
        if sofar.style is Some {
            RecipeSoFar { errors: sofar.errors.push(second_style(node.span)), ..sofar }
        } else {
            RecipeSoFar {
                style: style_read(node).value,
                errors: sofar.errors + style_read(node).errors,
                ..sofar
            }
        }
    } else if name == "options"@ {
        RecipeSoFar {
            options: Some(options_read(node.children@).strip),
            errors: sofar.errors + options_read(node.children@).errors,
            ..sofar
        }
    } else if stage_named(name) is Some {
        RecipeSoFar {
            playbooks: match playbook_read(node).value {
                Some(p) => playbooks_with(sofar.playbooks, p),
                None => sofar.playbooks,
            },
            errors: sofar.errors + playbook_read(node).errors,
            ..sofar
        }
    } else {
        sofar
    }
}

/// What the children `nodes` of a `recipe` node come to, beginning at `begun`.
pub open spec fn recipe_so_far(nodes: Seq<Node>, begun: RecipeSoFar) -> RecipeSoFar
    decreases nodes.len(),
{
    if nodes.len() == 0 {
        begun
    } else {
        recipe_after(recipe_so_far(nodes.drop_last(), begun), nodes.last())
    }
}

/// The sides that the `side` nodes among `nodes` come to, in order, for a
/// recipe with `description` and `depends`, and the mistakes in them.
pub open spec fn sides_read(nodes: Seq<Node>, description: Seq<char>, depends: Seq<Seq<char>>) -> (
    Seq<SideView>,
    Seq<HobParseErrorView>,
)
    decreases nodes.len(),
{
    if nodes.len() == 0 {
        (Seq::empty(), Seq::empty())
    } else {
        let (sides, errors) = sides_read(nodes.drop_last(), description, depends);
        if nodes.last().name@ == "side"@ {
            let (side, more) = side_read(nodes.last(), description, depends);
            (sides.push(side), errors + more)
        } else {
            (sides, errors)
        }
    }
}

/// The recipe that the children of a node came to, without its sides.
pub open spec fn recipe_of(name: Seq<char>, sofar: RecipeSoFar) -> RecipeView {
    RecipeView {
        name,
        version: sofar.version,
        source_dir: match sofar.source_dir {
            Some(dir) => dir,
            None => name + "-"@ + sofar.version,
        },
        revision: 0,
        description: sofar.description,
        home: sofar.home,
        license: sofar.license,
        maintainers: sofar.maintainers,
        depends: sofar.depends,
        provides: sofar.provides,
        artifacts: sofar.artifacts,
        style: match sofar.style {
            Some(style) => style,
            None => BuildStyleView::unset(),
        },
        sides: Seq::empty(),
        strip: match sofar.options {
            Some(strip) => strip,
            None => None,
        },
        playbooks: sofar.playbooks,
    }
}

/// A `recipe` node: its one string is its name, `<unnamed>` where that is
/// missing; its children say the rest. A recipe must have a version: where
/// it has none that is a mistake, and the version is `0.0.0`. The sides are
/// read last, so that they inherit what the recipe has in the end.
pub open spec fn recipe_read(node: Node) -> (RecipeView, Seq<HobParseErrorView>) {
    let name = text_given(node, "name of recipe"@, "<unnamed>"@);
    let sofar = recipe_so_far(
        node.children@,
        recipe_begun(text_errors(node, "name of recipe"@, Seq::empty())),
    );
    let errors = if sofar.found_version {
        sofar.errors
    } else {
        sofar.errors.push(plain_error(node.span, "recipe missing version"@))
    };
    let (sides, side_errors) = sides_read(node.children@, sofar.description, sofar.depends);
    (RecipeView { sides, ..recipe_of(name, sofar) }, errors + side_errors)
}

/// The recipes that the `recipe` nodes among `nodes` come to, in order, and
/// the mistakes in them.
pub open spec fn document_read(nodes: Seq<Node>) -> (Seq<RecipeView>, Seq<HobParseErrorView>)
    decreases nodes.len(),
{
    if nodes.len() == 0 {
        (Seq::empty(), Seq::empty())
    } else {
        let (recipes, errors) = document_read(nodes.drop_last());
        if nodes.last().name@ == "recipe"@ {
            let (recipe, more) = recipe_read(nodes.last());
            (recipes.push(recipe), errors + more)
        } else {
            (recipes, errors)
        }
    }
}

/// Giving a list of playbooks the playbook of a stage leaves no stage with
/// two playbooks.
pub proof fn lemma_playbooks_with_distinct(
    playbooks: Seq<ActionPlaybookView>,
    playbook: ActionPlaybookView,
)
    requires
        distinct_stages(playbooks),
    ensures
        distinct_stages(playbooks_with(playbooks, playbook)),
{
    lemma_playbook_index(playbooks, playbook.stage);
    let k = playbook_index(playbooks, playbook.stage);
    let after = playbooks_with(playbooks, playbook);
    assert forall|i: int, j: int| 0 <= i < j < after.len() implies (#[trigger] after[i]).stage != (
    #[trigger] after[j]).stage by {
        if k < playbooks.len() {
            assert(playbooks[i].stage != playbooks[j].stage);
            assert(playbooks[k].stage == playbook.stage);
            if i == k {
                assert(playbooks[k].stage != playbooks[j].stage);
            }
            if j == k {
                assert(playbooks[i].stage != playbooks[k].stage);
            }
        } else {
            if j < playbooks.len() {
                assert(playbooks[i].stage != playbooks[j].stage);
            } else {
                assert(playbooks[i].stage != playbook.stage);
            }
        }
    }
}

/// Reading the children of a recipe leaves no stage with two playbooks.
pub proof fn lemma_recipe_so_far_distinct(nodes: Seq<Node>, begun: RecipeSoFar)
    requires
        distinct_stages(begun.playbooks),
    ensures
        distinct_stages(recipe_so_far(nodes, begun).playbooks),
    decreases nodes.len(),
{
    if nodes.len() > 0 {
        lemma_recipe_so_far_distinct(nodes.drop_last(), begun);
        let before = recipe_so_far(nodes.drop_last(), begun);
        let read = playbook_read(nodes.last());
        if read.value is Some {
            lemma_playbooks_with_distinct(before.playbooks, read.value->0);
        }
    }
}

/// What has been read of a recipe so far.
struct RecipeDraft {
    errors: Vec<HobParseError>,
    found_version: bool,
    version: String,
    description: String,
    home: Option<String>,
    source_dir: Option<String>,
    license: Vec<String>,
    maintainers: Vec<String>,
    depends: Vec<String>,
    provides: Vec<String>,
    artifacts: Vec<Artifact>,
    style: Option<BuildStyle>,
    options: Option<RecipeOptions>,
    playbooks: Vec<ActionPlaybook>,
}

impl View for RecipeDraft {
    type V = RecipeSoFar;

    closed spec fn view(&self) -> RecipeSoFar {
        RecipeSoFar {
            errors: self.errors.deep_view(),
            found_version: self.found_version,
            version: self.version@,
            description: self.description@,
            home: self.home.deep_view(),
            source_dir: self.source_dir.deep_view(),
            license: self.license.deep_view(),
            maintainers: self.maintainers.deep_view(),
            depends: self.depends.deep_view(),
            provides: self.provides.deep_view(),
            artifacts: self.artifacts.deep_view(),
            style: self.style.deep_view(),
            options: match self.options {
                Some(o) => Some(o.strip),
                None => None,
            },
            playbooks: self.playbooks.deep_view(),
        }
    }
}

/// Gives `playbooks` the playbook `playbook` of its stage.
fn insert_playbook(playbooks: &mut Vec<ActionPlaybook>, playbook: ActionPlaybook)
    ensures
        final(playbooks).deep_view() == playbooks_with(old(playbooks).deep_view(), playbook@),
{
    let ghost before = playbooks.deep_view();
    proof {
        lemma_playbook_index(before, playbook.stage);
    }
    let mut i: usize = 0;
    while i < playbooks.len()
        invariant
            i <= playbooks.len(),
            *playbooks == *old(playbooks),
            before == playbooks.deep_view(),
            forall|j: int| 0 <= j < i ==> (#[trigger] before[j]).stage != playbook.stage,
        decreases playbooks.len() - i,
    {
        if playbooks[i].stage == playbook.stage {
            proof {
                lemma_playbook_index(before, playbook.stage);
                let k = playbook_index(before, playbook.stage);
                assert(before[i as int].stage == playbook.stage);
                if k > i {
                    assert(before[i as int].stage != playbook.stage);
                }
                if k < i {
                    assert(before[k].stage != playbook.stage);
                }
            }
            playbooks.set(i, playbook);
            assert(playbooks.deep_view() =~= before.update(i as int, playbook@));
            return ;
        }
        i += 1;
    }
    proof {
        lemma_playbook_index(before, playbook.stage);
        let k = playbook_index(before, playbook.stage);
        if k < before.len() {
            assert(before[k].stage != playbook.stage);
        }
    }
    playbooks.push(playbook);
    assert(playbooks.deep_view() =~= before.push(playbook@));
}

impl RecipeDraft {
    fn begin(errors: Vec<HobParseError>) -> (r: RecipeDraft)
        ensures
            r@ == recipe_begun(errors.deep_view()),
    {
        let r = RecipeDraft {
            errors,
            found_version: false,
            version: String::from_str("0.0.0"),
            description: String::new(),
            home: None,
            source_dir: None,
            license: Vec::new(),
            maintainers: Vec::new(),
            depends: Vec::new(),
            provides: Vec::new(),
            artifacts: Vec::new(),
            style: None,
            options: None,
            playbooks: Vec::new(),
        };
        assert(r.license.deep_view() =~= Seq::empty());
        assert(r.maintainers.deep_view() =~= Seq::empty());
        assert(r.depends.deep_view() =~= Seq::empty());
        assert(r.provides.deep_view() =~= Seq::empty());
        assert(r.artifacts.deep_view() =~= Seq::empty());
        assert(r.playbooks.deep_view() =~= Seq::empty());
        r
    }

    fn absorb(&mut self, node: &Node)
        ensures
            final(self)@ == recipe_after(old(self)@, *node),
    {
        let name = node.name.as_str();
        if str_equal(name, "version") {
            self.found_version = true;
            crate::definition::reader::string_into(
                node,
                "version",
                &mut self.version,
                &mut self.errors,
            );
        } else if str_equal(name, "description") {
            crate::definition::reader::string_into(
                node,
                "version",
                &mut self.description,
                &mut self.errors,
            );
        } else if str_equal(name, "home") {
            crate::definition::reader::string_into_option(
                node,
                "version",
                &mut self.home,
                &mut self.errors,
            );
        } else if str_equal(name, "source-dir") {
            crate::definition::reader::string_into_option(
                node,
                "source-dir",
                &mut self.source_dir,
                &mut self.errors,
            );
        } else if str_equal(name, "depends") {
            crate::definition::reader::list_ext_into(
                node,
                "depends",
                &mut self.depends,
                &mut self.errors,
            );
        } else if str_equal(name, "provides") {
            crate::definition::reader::list_ext_into(
                node,
                "provides",
                &mut self.provides,
                &mut self.errors,
            );
        } else if str_equal(name, "license") {
            crate::definition::reader::list_into(
                node,
                "depends",
                &mut self.license,
                &mut self.errors,
            );
        } else if str_equal(name, "maintainer") {
            crate::definition::reader::list_into(
                node,
                "depends",
                &mut self.maintainers,
                &mut self.errors,
            );
        } else if str_equal(name, "artifacts") {
            let (artifacts, more) = Artifact::parse_list_with_errors(node);
            let mut artifacts = artifacts.unwrap();
            let ghost first = self.artifacts;
            let ghost second = artifacts;
            self.artifacts.append(&mut artifacts);
            assert(self.artifacts.deep_view() =~= first.deep_view() + second.deep_view());
            extend_errors(&mut self.errors, more);
        } else if str_equal(name, "style") {
            if self.style.is_some() {
                push_error(
                    &mut self.errors,
                    HobParseError {
                        span: node.span,
                        label: Some("second definition of style here"),
                        help: None,
                        kind: String::from_str(
                            "redefinition of style, can only have one build style",
                        ),
                    },
                );
            } else {
                let (style, more) = BuildStyle::parse_node_with_errors(node);
                extend_errors(&mut self.errors, more);
                self.style = style;
            }
        } else if str_equal(name, "options") {
            let (options, more) = RecipeOptions::parse_node_with_errors(node);
            extend_errors(&mut self.errors, more);
            self.options = options;
        } else if Stage::from_str(name).is_some() {
            let (playbook, more) = ActionPlaybook::parse_node_with_errors(node);
            extend_errors(&mut self.errors, more);
            match playbook {
                Some(playbook) => {
                    insert_playbook(&mut self.playbooks, playbook);
                },
                None => {},
            }
        }
    }
}

/// Seen from outside, a list that was given a side is the list it was with the
/// side after it.
pub proof fn lemma_sides_push(before: Vec<Side>, after: Vec<Side>, side: Side)
    requires
        after@ == before@.push(side),
    ensures
        after.deep_view() == before.deep_view().push(side@),
{
    assert(after.deep_view() =~= before.deep_view().push(side@));
}

/// Seen from outside, a list that was given a recipe is the list it was with
/// the recipe after it.
pub proof fn lemma_recipes_push(before: Vec<Recipe>, after: Vec<Recipe>, recipe: Recipe)
    requires
        after@ == before@.push(recipe),
    ensures
        after.deep_view() == before.deep_view().push(recipe@),
{
    assert(after.deep_view() =~= before.deep_view().push(recipe@));
}

impl Recipe {
    /// The recipe that the node `input` describes, as far as it could be read,
    /// and the mistakes in it.
    pub fn parse_node_with_errors(input: &Node) -> (r: (Option<Recipe>, Vec<HobParseError>))
        ensures
            r.0 matches Some(recipe) && recipe@ == recipe_read(*input).0 && recipe@.well_formed(),
            r.1.deep_view() == recipe_read(*input).1,
    {
        let mut errors = no_errors();
        let mut name = String::from_str("<unnamed>");
        crate::definition::reader::string_into(input, "name of recipe", &mut name, &mut errors);
        let mut draft = RecipeDraft::begin(errors);
        let ghost begun = draft@;
        let mut i: usize = 0;
        while i < input.children.len()
            invariant
                i <= input.children.len(),
                draft@ == recipe_so_far(input.children@.take(i as int), begun),
            decreases input.children.len() - i,
        {
            proof {
                assert(input.children@.take(i + 1).drop_last() =~= input.children@.take(
                    i as int,
                ));
            }
            draft.absorb(&input.children[i]);
            i += 1;
        }
        proof {
            assert(input.children@.take(i as int) =~= input.children@);
            lemma_recipe_so_far_distinct(input.children@, begun);
        }
        if !draft.found_version {
            push_error(
                &mut draft.errors,
                error_at(input.span, String::from_str("recipe missing version")),
            );
        }
        let source_dir = match draft.source_dir {
            Some(dir) => dir,
            None => concat3(name.as_str(), "-", draft.version.as_str()),
        };
        let mut recipe = Recipe {
            source_dir,
            name,
            version: draft.version,
            revision: 0,
            description: draft.description,
            home: draft.home,
            license: draft.license,
            maintainers: draft.maintainers,
            depends: draft.depends,
            provides: draft.provides,
            artifacts: draft.artifacts,
            style: match draft.style {
                Some(style) => style,
                None => BuildStyle::default(),
            },
            sides: Vec::new(),
            options: match draft.options {
                Some(options) => options,
                None => RecipeOptions::default(),
            },
            playbooks: draft.playbooks,
        };
        let mut errors = draft.errors;
        let mut sides: Vec<Side> = Vec::new();
        assert(sides.deep_view() =~= Seq::empty());
        let ghost base = errors.deep_view();
        assert(recipe.sides.deep_view() =~= Seq::empty());
        let mut k: usize = 0;
        while k < input.children.len()
            invariant
                k <= input.children.len(),
                errors.deep_view() == base + sides_read(
                    input.children@.take(k as int),
                    recipe@.description,
                    recipe@.depends,
                ).1,
                sides.deep_view() == sides_read(
                    input.children@.take(k as int),
                    recipe@.description,
                    recipe@.depends,
                ).0,
            decreases input.children.len() - k,
        {
            proof {
                assert(input.children@.take(k + 1).drop_last() =~= input.children@.take(
                    k as int,
                ));
            }
            let node = &input.children[k];
            if str_equal(node.name.as_str(), "side") {
                let (side, more) = Side::parse_node_with_errors(node, &recipe);
                let ghost sofar = errors.deep_view();
                extend_errors(&mut errors, more);
                let side = side.unwrap();
                let ghost before = sides;
                sides.push(side);
                proof {
                    lemma_sides_push(before, sides, side);
                    let read = sides_read(
                        input.children@.take(k as int),
                        recipe@.description,
                        recipe@.depends,
                    );
                    assert(errors.deep_view() =~= base + (read.1 + more.deep_view()));
                }
            }
            k += 1;
        }
        proof {
            assert(input.children@.take(k as int) =~= input.children@);
        }
        recipe.sides = sides;
        (Some(recipe), errors)
    }

    /// The recipe that the node `input` describes, or the mistakes where
    /// nothing could be read. Something can always be read.
    pub fn parse_node(input: &Node) -> (r: Result<Recipe, Vec<HobParseError>>)
        ensures
            r matches Ok(recipe) && recipe@ == recipe_read(*input).0,
    {
        let (recipe, errors) = Recipe::parse_node_with_errors(input);
        match recipe {
            Some(recipe) => Ok(recipe),
            None => Err(errors),
        }
    }

    /// The recipe that the node `input` describes, or its mistakes where it has
    /// any.
    pub fn parse_node_strict(input: &Node) -> (r: Result<Recipe, Vec<HobParseError>>)
        ensures
            r is Ok <==> recipe_read(*input).1.len() == 0,
            r matches Ok(recipe) ==> recipe@ == recipe_read(*input).0,
            r matches Err(errors) ==> errors.deep_view() == recipe_read(*input).1,
    {
        let (recipe, errors) = Recipe::parse_node_with_errors(input);
        if errors.len() == 0 {
            Ok(recipe.unwrap())
        } else {
            Err(errors)
        }
    }
}

impl Document {
    /// The recipes that the top-level nodes `input` of a document describe,
    /// and the mistakes in them. Nodes that are no recipes are passed over.
    pub fn parse_document_with_errors(input: &Vec<Node>) -> (r: (
        Option<Document>,
        Vec<HobParseError>,
    ))
        ensures
            r.0 matches Some(document) && document@ == document_read(input@).0,
            r.1.deep_view() == document_read(input@).1,
    {
        let mut recipes: Vec<Recipe> = Vec::new();
        assert(recipes.deep_view() =~= Seq::empty());
        let mut errors = no_errors();
        let mut i: usize = 0;
        while i < input.len()
            invariant
                i <= input.len(),
                (recipes.deep_view(), errors.deep_view()) == document_read(input@.take(i as int)),
            decreases input.len() - i,
        {
            proof {
                assert(input@.take(i + 1).drop_last() =~= input@.take(i as int));
            }
            let node = &input[i];
            if str_equal(node.name.as_str(), "recipe") {
                let (recipe, more) = Recipe::parse_node_with_errors(node);
                extend_errors(&mut errors, more);
                let recipe = recipe.unwrap();
                let ghost before = recipes;
                recipes.push(recipe);
                proof {
                    lemma_recipes_push(before, recipes, recipe);
                }
            }
            i += 1;
        }
        proof {
            assert(input@.take(i as int) =~= input@);
        }
        (Some(Document { recipes }), errors)
    }

    /// The document that the nodes `input` describe, or the mistakes where
    /// nothing could be read. Something can always be read.
    pub fn parse_document(input: &Vec<Node>) -> (r: Result<Document, Vec<HobParseError>>)
        ensures
            r matches Ok(document) && document@ == document_read(input@).0,
    {
        let (document, errors) = Document::parse_document_with_errors(input);
        match document {
            Some(document) => Ok(document),
            None => Err(errors),
        }
    }

    /// The document that the nodes `input` describe, or its mistakes where it
    /// has any.
    pub fn parse_document_strict(input: &Vec<Node>) -> (r: Result<Document, Vec<HobParseError>>)
        ensures
            r is Ok <==> document_read(input@).1.len() == 0,
            r matches Ok(document) ==> document@ == document_read(input@).0,
            r matches Err(errors) ==> errors.deep_view() == document_read(input@).1,
    {
        let (document, errors) = Document::parse_document_with_errors(input);
        if errors.len() == 0 {
            Ok(document.unwrap())
        } else {
            Err(errors)
        }
    }
}

} // verus!
