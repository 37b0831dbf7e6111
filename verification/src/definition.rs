//! The recipe model.

pub mod actions;
pub mod build_style;
pub mod parsing;
pub mod reader;
pub mod recipe_reader;
pub mod walk;

use crate::definition::actions::{ActionPlaybook, ActionPlaybookView, Stage};
use crate::definition::build_style::{BuildStyle, BuildStyleView};
use crate::digest::{hasher_finish, hasher_update, input_limit, sha256, sha256_hasher};
use crate::text::{concat, decimal, decimal_string};
use vstd::prelude::*;
use vstd::string::StringSliceAdditionalSpecFns;

verus! {

/// How the files of an artifact are checked once they are here.
#[derive(Debug, Clone, PartialEq, Eq)]
pub struct Verification {
    /// The SHA-256 digest that the file must have.
    pub sha256: Option<[u8; 32]>,
}

pub struct VerificationView {
    pub sha256: Option<Seq<u8>>,
}

impl View for Verification {
    type V = VerificationView;

    open spec fn view(&self) -> VerificationView {
        VerificationView {
            sha256: match self.sha256 {
                Some(d) => Some(d@),
                None => None,
            },
        }
    }
}

impl Default for Verification {
    fn default() -> (r: Self)
        ensures
            r@.sha256 is None,
    {
        Verification { sha256: None }
    }
}

/// A file that is fetched from a URL.
#[derive(Debug, Clone, PartialEq, Eq)]
pub struct FetchArtifact {
    pub url: String,
    pub file_name: String,
}

pub struct FetchArtifactView {
    pub url: Seq<char>,
    pub file_name: Seq<char>,
}

impl View for FetchArtifact {
    type V = FetchArtifactView;

    open spec fn view(&self) -> FetchArtifactView {
        FetchArtifactView { url: self.url@, file_name: self.file_name@ }
    }
}

impl FetchArtifact {
    /// The name under which the file is kept.
    pub fn file_name(&self) -> (r: &str)
        ensures
            r@ == self@.file_name,
    {
        self.file_name.as_str()
    }

    /// The bytes that identify the source: those of the URL.
    pub fn hash_data(&self) -> (r: &[u8])
        ensures
            r@ == vstd::utf8::encode_utf8(self@.url),
    {
        self.url.as_str().as_bytes()
    }
}

/// Where an artifact comes from.
#[derive(Debug, Clone, PartialEq, Eq)]
pub enum ArtifactSource {
    Fetch(FetchArtifact),
}

pub enum ArtifactSourceView {
    Fetch(FetchArtifactView),
}

/// The tag of the fetch method: the ASCII text `fetch`.
pub open spec fn fetch_tag() -> Seq<u8> {
    seq![0x66u8, 0x65u8, 0x74u8, 0x63u8, 0x68u8]
}

impl ArtifactSourceView {
    /// The tag of the method by which the artifact is had.
    pub open spec fn method_name(self) -> Seq<u8> {
        fetch_tag()
    }

    /// The name under which the artifact is kept.
    pub open spec fn file_name(self) -> Seq<char> {
        match self {
            ArtifactSourceView::Fetch(f) => f.file_name,
        }
    }

    /// The bytes that, with the method, identify the source.
    pub open spec fn hash_data(self) -> Seq<u8> {
        match self {
            ArtifactSourceView::Fetch(f) => vstd::utf8::encode_utf8(f.url),
        }
    }

    /// The source is short enough for a digest to be taken of it.
    pub open spec fn hashable(self) -> bool {
        self.method_name().len() + self.hash_data().len() < input_limit()
    }

    /// The 32 bytes that identify the source: the SHA-256 digest of the method's
    /// tag followed by the source's data.
    pub open spec fn hash_id(self) -> Seq<u8> {
        sha256(self.method_name() + self.hash_data())
    }
}

impl View for ArtifactSource {
    type V = ArtifactSourceView;

    open spec fn view(&self) -> ArtifactSourceView {
        match self {
            ArtifactSource::Fetch(f) => ArtifactSourceView::Fetch(f@),
        }
    }
}

impl ArtifactSource {
    /// The tag of the method by which the artifact is had.
    pub fn method_name(&self) -> (r: &'static [u8])
        ensures
            r@ == self@.method_name(),
    {
        let tag: &'static str = "fetch";
        proof {
            reveal_strlit("fetch");
            vstd::string::is_ascii_spec_bytes(tag);
            assert(tag.spec_bytes() =~= fetch_tag());
        }
        tag.as_bytes()
    }

    /// The name under which the artifact is kept.
    pub fn file_name(&self) -> (r: &str)
        ensures
            r@ == self@.file_name(),
    {
        match self {
            ArtifactSource::Fetch(f) => f.file_name(),
        }
    }

    /// The bytes that, with the method, identify the source.
    pub fn hash_data(&self) -> (r: &[u8])
        ensures
            r@ == self@.hash_data(),
    {
        match self {
            ArtifactSource::Fetch(f) => f.hash_data(),
        }
    }
}

/// Something that a recipe needs before it can build: where it comes from and
/// how it is checked.
#[derive(Debug, Clone, PartialEq, Eq)]
pub struct Artifact {
    pub source: ArtifactSource,
    pub verification: Verification,
}

pub struct ArtifactView {
    pub source: ArtifactSourceView,
    pub verification: VerificationView,
}

impl View for Artifact {
    type V = ArtifactView;

    open spec fn view(&self) -> ArtifactView {
        ArtifactView { source: self.source@, verification: self.verification@ }
    }
}

impl DeepView for Artifact {
    type V = ArtifactView;

    open spec fn deep_view(&self) -> ArtifactView {
        self@
    }
}

impl Artifact {
    /// The name under which the artifact is kept.
    pub fn file_name(&self) -> (r: &str)
        ensures
            r@ == self@.source.file_name(),
    {
        self.source.file_name()
    }

    /// Whether the artifact's source is short enough for a digest to be taken
    /// of it.
    pub fn hashable(&self) -> (r: bool)
        ensures
            r == self@.source.hashable(),
    {
        let name = self.source.method_name();
        let hash_data = self.source.hash_data();
        (hash_data.len() as u64) < 0x2000_0000_0000_0000u64 - (name.len() as u64)
    }

    /// The 32 bytes that identify the artifact's source, whatever its
    /// verification says.
    pub fn hash_id(&self) -> (r: [u8; 32])
        requires
            self@.source.hashable(),
        ensures
            r@ == self@.source.hash_id(),
    {
        let name = self.source.method_name();
        let hash_data = self.source.hash_data();
        let mut digest = sha256_hasher();
        hasher_update(&mut digest, name);
        hasher_update(&mut digest, hash_data);
        proof {
            assert(Seq::<u8>::empty() + name@ + hash_data@ =~= name@ + hash_data@);
        }
        hasher_finish(digest)
    }

    /// A copy of the artifact.
    pub fn duplicate(&self) -> (r: Artifact)
        ensures
            r@ == self@,
    {
        match &self.source {
            ArtifactSource::Fetch(f) => Artifact {
                source: ArtifactSource::Fetch(
                    FetchArtifact { url: f.url.clone(), file_name: f.file_name.clone() },
                ),
                verification: Verification { sha256: self.verification.sha256 },
            },
        }
    }
}

/// A package that is carved out of a recipe's installed files.
#[derive(Debug, Clone, PartialEq, Eq)]
pub struct Side {
    pub name: String,
    pub description: String,
    pub depends: Vec<String>,
    /// The glob patterns of the files that the side takes.
    pub claims: Vec<String>,
}

pub struct SideView {
    pub name: Seq<char>,
    pub description: Seq<char>,
    pub depends: Seq<Seq<char>>,
    pub claims: Seq<Seq<char>>,
}

impl View for Side {
    type V = SideView;

    open spec fn view(&self) -> SideView {
        SideView {
            name: self.name@,
            description: self.description@,
            depends: self.depends.deep_view(),
            claims: self.claims.deep_view(),
        }
    }
}

impl DeepView for Side {
    type V = SideView;

    open spec fn deep_view(&self) -> SideView {
        self@
    }
}

/// Switches of a recipe.
#[derive(Debug, Clone, PartialEq, Eq)]
pub struct RecipeOptions {
    /// Whether installed binaries are stripped; they are where it is unset.
    pub strip: Option<bool>,
}

impl Default for RecipeOptions {
    fn default() -> (r: Self)
        ensures
            r.strip is None,
    {
        RecipeOptions { strip: None }
    }
}

/// How one upstream package is fetched, built and packaged.
///
/// `playbooks` maps a stage to its playbook: no stage occurs twice in it.
#[derive(Debug, Clone, PartialEq, Eq)]
pub struct Recipe {
    pub name: String,
    pub version: String,
    pub source_dir: String,
    pub revision: usize,
    pub description: String,
    pub home: Option<String>,
    pub license: Vec<String>,
    pub maintainers: Vec<String>,
    pub depends: Vec<String>,
    pub provides: Vec<String>,
    pub artifacts: Vec<Artifact>,
    pub style: BuildStyle,
    pub sides: Vec<Side>,
    pub options: RecipeOptions,
    pub playbooks: Vec<ActionPlaybook>,
}

pub struct RecipeView {
    pub name: Seq<char>,
    pub version: Seq<char>,
    pub source_dir: Seq<char>,
    pub revision: nat,
    pub description: Seq<char>,
    pub home: Option<Seq<char>>,
    pub license: Seq<Seq<char>>,
    pub maintainers: Seq<Seq<char>>,
    pub depends: Seq<Seq<char>>,
    pub provides: Seq<Seq<char>>,
    pub artifacts: Seq<ArtifactView>,
    pub style: BuildStyleView,
    pub sides: Seq<SideView>,
    pub strip: Option<bool>,
    pub playbooks: Seq<ActionPlaybookView>,
}

/// No two playbooks of `playbooks` are for the same stage.
pub open spec fn distinct_stages(playbooks: Seq<ActionPlaybookView>) -> bool {
    forall|i: int, j: int|
        0 <= i < j < playbooks.len() ==> (#[trigger] playbooks[i]).stage != (
        #[trigger] playbooks[j]).stage
}

/// The place of the playbook for `stage` in `playbooks`, or the length of
/// `playbooks` where it holds none.
pub open spec fn playbook_index(playbooks: Seq<ActionPlaybookView>, stage: Stage) -> int
    decreases playbooks.len(),
{
    if playbooks.len() == 0 {
        0
    } else if playbooks[0].stage == stage {
        0
    } else {
        1 + playbook_index(playbooks.drop_first(), stage)
    }
}

/// The place of a stage's playbook lies within the list or at its end; the
/// playbook there is for the stage, and none before it is.
pub proof fn lemma_playbook_index(playbooks: Seq<ActionPlaybookView>, stage: Stage)
    ensures
        0 <= playbook_index(playbooks, stage) <= playbooks.len(),
        playbook_index(playbooks, stage) < playbooks.len() ==> playbooks[playbook_index(
            playbooks,
            stage,
        )].stage == stage,
        forall|i: int|
            0 <= i < playbook_index(playbooks, stage) ==> (#[trigger] playbooks[i]).stage != stage,
    decreases playbooks.len(),
{
    if playbooks.len() > 0 && playbooks[0].stage != stage {
        let rest = playbooks.drop_first();
        lemma_playbook_index(rest, stage);
        assert forall|i: int| 0 <= i < playbook_index(playbooks, stage) implies (
        #[trigger] playbooks[i]).stage != stage by {
            if i > 0 {
                assert(rest[i - 1] == playbooks[i]);
            }
        }
    }
}

impl RecipeView {
    /// The recipe's invariant: no stage has two playbooks.
    pub open spec fn well_formed(self) -> bool {
        distinct_stages(self.playbooks)
    }

    /// The playbook that the recipe gives for `stage`, if any.
    pub open spec fn playbook(self, stage: Stage) -> Option<ActionPlaybookView> {
        let k = playbook_index(self.playbooks, stage);
        if k < self.playbooks.len() {
            Some(self.playbooks[k])
        } else {
            None
        }
    }

    /// The text by which the recipe refers to itself: name, version and
    /// revision.
    pub open spec fn self_ref(self) -> Seq<char> {
        self.name + "-"@ + self.version + "-r"@ + decimal(self.revision)
    }
}

impl View for Recipe {
    type V = RecipeView;

    open spec fn view(&self) -> RecipeView {
        RecipeView {
            name: self.name@,
            version: self.version@,
            source_dir: self.source_dir@,
            revision: self.revision as nat,
            description: self.description@,
            home: self.home.deep_view(),
            license: self.license.deep_view(),
            maintainers: self.maintainers.deep_view(),
            depends: self.depends.deep_view(),
            provides: self.provides.deep_view(),
            artifacts: self.artifacts.deep_view(),
            style: self.style@,
            sides: self.sides.deep_view(),
            strip: self.options.strip,
            playbooks: self.playbooks.deep_view(),
        }
    }
}

impl DeepView for Recipe {
    type V = RecipeView;

    open spec fn deep_view(&self) -> RecipeView {
        self@
    }
}

/// The values that a recipe offers to the templates in its own strings.
#[derive(Debug, PartialEq, Eq)]
pub struct RecipeTemplate {
    pub self_ref: String,
    pub name: String,
    pub version: String,
    pub description: String,
    pub revision: usize,
}

pub struct RecipeTemplateView {
    pub self_ref: Seq<char>,
    pub name: Seq<char>,
    pub version: Seq<char>,
    pub description: Seq<char>,
    pub revision: nat,
}

impl View for RecipeTemplate {
    type V = RecipeTemplateView;

    open spec fn view(&self) -> RecipeTemplateView {
        RecipeTemplateView {
            self_ref: self.self_ref@,
            name: self.name@,
            version: self.version@,
            description: self.description@,
            revision: self.revision as nat,
        }
    }
}

impl Recipe {
    /// The values that the recipe offers to the templates in its own strings.
    pub fn template_vars(&self) -> (r: RecipeTemplate)
        ensures
            r@ == (RecipeTemplateView {
                self_ref: self@.self_ref(),
                name: self@.name,
                version: self@.version,
                description: self@.description,
                revision: self@.revision,
            }),
    {
        let mut self_ref = concat(self.name.as_str(), "-");
        self_ref.append(self.version.as_str());
        self_ref.append("-r");
        let revision = decimal_string(self.revision as u128);
        self_ref.append(revision.as_str());
        RecipeTemplate {
            self_ref,
            name: self.name.clone(),
            version: self.version.clone(),
            revision: self.revision,
            description: self.description.clone(),
        }
    }

    /// The playbook that the recipe gives for `stage`, if any.
    pub fn playbook(&self, stage: Stage) -> (r: Option<&ActionPlaybook>)
        ensures
            r.deep_view() == self@.playbook(stage),
    {
        let mut i: usize = 0;
        while i < self.playbooks.len()
            invariant
                i <= self.playbooks.len(),
                forall|j: int| 0 <= j < i ==> (#[trigger] self.playbooks@[j]).stage != stage,
            decreases self.playbooks.len() - i,
        {
            if self.playbooks[i].stage == stage {
                proof {
                    lemma_playbook_index(self@.playbooks, stage);
                    let k = playbook_index(self@.playbooks, stage);
                    if k < i {
                        assert(self.playbooks@[k].stage != stage);
                    }
                    if k > i {
                        assert(self@.playbooks[i as int].stage != stage);
                    }
                }
                return Some(&self.playbooks[i]);
            }
            i += 1;
        }
        proof {
            lemma_playbook_index(self@.playbooks, stage);
            let k = playbook_index(self@.playbooks, stage);
            if k < self.playbooks.len() {
                assert(self.playbooks@[k].stage != stage);
            }
        }
        None
    }
}

/// Two artifacts that are had by the same method from the same source have
/// the same identity, whatever their verification and their file names say.
pub proof fn lemma_cache_identity(a: ArtifactView, b: ArtifactView)
    requires
        a.source.method_name() == b.source.method_name(),
        a.source.hash_data() == b.source.hash_data(),
    ensures
        a.source.hash_id() == b.source.hash_id(),
{
}

/// What a recipe document holds.
#[derive(Debug, Clone, PartialEq, Eq)]
pub struct Document {
    pub recipes: Vec<Recipe>,
}

impl View for Document {
    type V = Seq<RecipeView>;

    open spec fn view(&self) -> Seq<RecipeView> {
        self.recipes.deep_view()
    }
}

} // verus!
