//! Making packages out of what a recipe installed.

pub mod apk;

use crate::definition::{Recipe, RecipeView};
use crate::engine::player::{Context, ContextView};
use crate::engine::{EngineSettings, Operation, OperationView};
use std::sync::Arc;
use vstd::prelude::*;

verus! {

/// Something that makes the package of a recipe or of one of its sides.
pub trait Packager {
    /// The work that makes the package of `context`, which belongs to
    /// `recipe`.
    spec fn package_plan(&self, recipe: RecipeView, context: ContextView) -> Seq<OperationView>;

    /// The work that makes the package of `context`, which belongs to
    /// `recipe`.
    fn build_package(&self, recipe: &Recipe, context: Context) -> (r: Vec<Operation>)
        ensures
            r.deep_view() == self.package_plan(recipe@, context@),
    ;
}

/// Something that makes a packager for given settings.
pub trait PackagerBuilder {
    type Output: Packager;

    fn build(settings: Arc<EngineSettings>) -> Self::Output;
}

} // verus!
