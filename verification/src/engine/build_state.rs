//! What one build of a recipe has found out so far.

use crate::definition::actions::Stage;
use crate::definition::{Recipe, RecipeView};
use crate::engine::fetcher::{FetchedArtifact, FetchedArtifactView};
use crate::utils::elf::ElfHeader;
use vstd::prelude::*;

verus! {

/// The time at which a build began, counted from the beginning of 1970:
/// whole seconds, and the microseconds of the second that had begun.
#[derive(Debug, Copy, Clone, PartialEq, Eq, Structural)]
pub struct BuildTime {
    pub secs: u64,
    pub micros: u32,
}

impl DeepView for ElfHeader {
    type V = ElfHeader;

    open spec fn deep_view(&self) -> ElfHeader {
        *self
    }
}

/// The state of one build. `elf_headers` maps the path of an ELF file to its
/// header.
pub struct BuildState<'a> {
    pub build_time: BuildTime,
    pub recipe: &'a Recipe,
    pub stage: Stage,
    pub artifacts: Vec<FetchedArtifact<'a>>,
    pub elf_headers: Vec<(String, ElfHeader)>,
    pub archives: Vec<String>,
}

pub struct BuildStateView {
    pub build_time: BuildTime,
    pub recipe: RecipeView,
    pub stage: Stage,
    pub artifacts: Seq<FetchedArtifactView>,
    pub elf_headers: Seq<(Seq<char>, ElfHeader)>,
    pub archives: Seq<Seq<char>>,
}

impl<'a> View for BuildState<'a> {
    type V = BuildStateView;

    open spec fn view(&self) -> BuildStateView {
        BuildStateView {
            build_time: self.build_time,
            recipe: self.recipe@,
            stage: self.stage,
            artifacts: self.artifacts.deep_view(),
            elf_headers: self.elf_headers.deep_view(),
            archives: self.archives.deep_view(),
        }
    }
}

impl BuildStateView {
    /// The state in which the build of `recipe` begins.
    pub open spec fn initial(recipe: RecipeView, build_time: BuildTime) -> BuildStateView {
        BuildStateView {
            build_time,
            recipe,
            stage: Stage::Prepare,
            artifacts: Seq::empty(),
            elf_headers: Seq::empty(),
            archives: Seq::empty(),
        }
    }
}

impl<'a> BuildState<'a> {
    /// The state in which the build of `recipe` begins.
    pub fn new(recipe: &'a Recipe, build_time: BuildTime) -> (r: BuildState<'a>)
        ensures
            r@ == BuildStateView::initial(recipe@, build_time),
    {
        let r = BuildState {
            build_time,
            recipe,
            stage: Stage::Prepare,
            artifacts: Vec::new(),
            elf_headers: Vec::new(),
            archives: Vec::new(),
        };
        assert(r.artifacts.deep_view() =~= Seq::empty());
        assert(r.elf_headers.deep_view() =~= Seq::empty());
        assert(r.archives.deep_view() =~= Seq::empty());
        r
    }
}

} // verus!
