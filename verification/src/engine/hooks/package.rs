//! The hooks that run before a recipe is packaged.

use crate::definition::{Recipe, RecipeView};
use crate::engine::build_state::{BuildState, BuildTime};
use crate::engine::hooks::{FixPermissions, PinTimestamps};
use crate::engine::{EngineSettings, EngineSettingsView, Operation, OperationView};
use crate::text::push_string;
use vstd::prelude::*;

verus! {

/// A time as the system takes it: seconds and microseconds since the
/// beginning of 1970.
#[derive(Debug, Copy, Clone, PartialEq, Eq, Structural)]
pub struct TimeVal {
    pub tv_sec: i64,
    pub tv_usec: i64,
}

/// The time to which files are set for a build that began at `time`: the
/// seconds as far as the system can count them.
pub open spec fn pinned_time(time: BuildTime) -> TimeVal {
    TimeVal {
        tv_sec: if time.secs > i64::MAX {
            i64::MAX
        } else {
            time.secs as i64
        },
        tv_usec: time.micros as i64,
    }
}

/// The directories whose files are set to the time of the build: the install
/// destination of the recipe, then those of its sides, in order.
pub open spec fn pinned_roots(settings: EngineSettingsView, recipe: RecipeView) -> Seq<Seq<char>> {
    seq![settings.dest_for(recipe.name)] + Seq::new(
        recipe.sides.len(),
        |i: int| settings.dest_for(recipe.sides[i].name),
    )
}

impl FixPermissions {
    /// The work of the hook: none yet.
    pub fn run() -> (r: Vec<Operation>)
        ensures
            r.deep_view() == Seq::<OperationView>::empty(),
    {
        let r: Vec<Operation> = Vec::new();
        assert(r.deep_view() =~= Seq::empty());
        r
    }
}

impl PinTimestamps {
    /// The time to which every installed file, directory and symbolic link
    /// is set.
    pub fn time(state: &BuildState) -> (r: TimeVal)
        ensures
            r == pinned_time(state@.build_time),
    {
        let secs = state.build_time.secs;
        TimeVal {
            tv_sec: if secs > 0x7fff_ffff_ffff_ffff {
                0x7fff_ffff_ffff_ffff
            } else {
                secs as i64
            },
            tv_usec: state.build_time.micros as i64,
        }
    }

    /// The directories whose entries are set to that time, themselves not
    /// included.
    pub fn roots(settings: &EngineSettings, recipe: &Recipe) -> (r: Vec<String>)
        ensures
            r.deep_view() == pinned_roots(settings@, recipe@),
    {
        let mut r: Vec<String> = Vec::new();
        assert(r.deep_view() =~= Seq::empty());
        push_string(&mut r, settings.dest_path_for_recipe(recipe));
        let ghost head = r.deep_view();
        assert(head =~= seq![settings@.dest_for(recipe@.name)]);
        let mut i: usize = 0;
        while i < recipe.sides.len()
            invariant
                i <= recipe.sides.len(),
                r.deep_view() == head + Seq::new(
                    i as nat,
                    |k: int| settings@.dest_for(recipe@.sides[k].name),
                ),
            decreases recipe.sides.len() - i,
        {
            push_string(&mut r, settings.dest_path_for_side(&recipe.sides[i]));
            assert(r.deep_view() =~= head + Seq::new(
                (i + 1) as nat,
                |k: int| settings@.dest_for(recipe@.sides[k].name),
            ));
            i += 1;
        }
        r
    }
}

} // verus!
