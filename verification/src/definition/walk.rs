//! Which strings of a recipe a walk visits.
//!
//! A walk visits the fields of an object in the order in which they are
//! declared. It passes over the family of a build style and over the
//! verification of an artifact.

use crate::definition::actions::{
    Action, ActionPlaybook, ActionPlaybookView, ActionView, BinAction, CcAction, CcActionView,
    DirAction, LinkAction, LinkActionView, ManAction, RmAction, Stage,
};
use crate::definition::build_style::{
    distinct_keys, entries_with, lemma_entries_with_distinct, BuildStyle, BuildStyleVariables,
    BuildStyleVariablesView, BuildStyleView, StringMap,
};
use crate::definition::{
    Artifact, ArtifactSource, ArtifactSourceView, ArtifactView, FetchArtifact,
    FetchArtifactView, Recipe, RecipeOptions, RecipeView, Side, SideView,
};
use crate::traversal::{
    lemma_steady_walker_at, steady, walker_at, ObjectTraversal, ObjectWalker,
};
use vstd::prelude::*;

verus! {

impl<W: ObjectWalker> ObjectTraversal<W> for Stage {
    open spec fn walked(&self, after: &Self, walker: W) -> bool {
        after == self
    }

    open spec fn walker_after(&self, walker: W) -> W {
        walker
    }

    fn traverse(&mut self, walker: &mut W) {
    }
}

impl<W: ObjectWalker> ObjectTraversal<W> for CcAction {
    open spec fn walked(&self, after: &Self, walker: W) -> bool {
        &&& self.input.walked(&after.input, walker)
        &&& self.output.walked(&after.output, self.input.walker_after(walker))
    }

    open spec fn walker_after(&self, walker: W) -> W {
        self.output.walker_after(self.input.walker_after(walker))
    }

    fn traverse(&mut self, walker: &mut W) {
        self.input.traverse(walker);
        self.output.traverse(walker);
    }
}

impl<W: ObjectWalker> ObjectTraversal<W> for BinAction {
    open spec fn walked(&self, after: &Self, walker: W) -> bool {
        self.binaries.walked(&after.binaries, walker)
    }

    open spec fn walker_after(&self, walker: W) -> W {
        self.binaries.walker_after(walker)
    }

    fn traverse(&mut self, walker: &mut W) {
        self.binaries.traverse(walker);
    }
}

impl<W: ObjectWalker> ObjectTraversal<W> for ManAction {
    open spec fn walked(&self, after: &Self, walker: W) -> bool {
        self.man_files.walked(&after.man_files, walker)
    }

    open spec fn walker_after(&self, walker: W) -> W {
        self.man_files.walker_after(walker)
    }

    fn traverse(&mut self, walker: &mut W) {
        self.man_files.traverse(walker);
    }
}

impl<W: ObjectWalker> ObjectTraversal<W> for LinkAction {
    open spec fn walked(&self, after: &Self, walker: W) -> bool {
        &&& self.source.walked(&after.source, walker)
        &&& self.target.walked(&after.target, self.source.walker_after(walker))
    }

    open spec fn walker_after(&self, walker: W) -> W {
        self.target.walker_after(self.source.walker_after(walker))
    }

    fn traverse(&mut self, walker: &mut W) {
        self.source.traverse(walker);
        self.target.traverse(walker);
    }
}

impl<W: ObjectWalker> ObjectTraversal<W> for RmAction {
    open spec fn walked(&self, after: &Self, walker: W) -> bool {
        self.targets.walked(&after.targets, walker)
    }

    open spec fn walker_after(&self, walker: W) -> W {
        self.targets.walker_after(walker)
    }

    fn traverse(&mut self, walker: &mut W) {
        self.targets.traverse(walker);
    }
}

impl<W: ObjectWalker> ObjectTraversal<W> for DirAction {
    open spec fn walked(&self, after: &Self, walker: W) -> bool {
        self.targets.walked(&after.targets, walker)
    }

    open spec fn walker_after(&self, walker: W) -> W {
        self.targets.walker_after(walker)
    }

    fn traverse(&mut self, walker: &mut W) {
        self.targets.traverse(walker);
    }
}

impl<W: ObjectWalker> ObjectTraversal<W> for Action {
    open spec fn walked(&self, after: &Self, walker: W) -> bool {
        match *self {
            Action::Default => *after is Default,
            Action::Cc(a) => *after matches Action::Cc(b) && a.walked(&b, walker),
            Action::Configure => *after is Configure,
            Action::Make => *after is Make,
            Action::MakeInstall => *after is MakeInstall,
            Action::Bin(a) => *after matches Action::Bin(b) && a.walked(&b, walker),
            Action::Man(a) => *after matches Action::Man(b) && a.walked(&b, walker),
            Action::Link(a) => *after matches Action::Link(b) && a.walked(&b, walker),
            Action::Rm(a) => *after matches Action::Rm(b) && a.walked(&b, walker),
            Action::Dir(a) => *after matches Action::Dir(b) && a.walked(&b, walker),
        }
    }

    open spec fn walker_after(&self, walker: W) -> W {
        match *self {
            Action::Cc(a) => a.walker_after(walker),
            Action::Bin(a) => a.walker_after(walker),
            Action::Man(a) => a.walker_after(walker),
            Action::Link(a) => a.walker_after(walker),
            Action::Rm(a) => a.walker_after(walker),
            Action::Dir(a) => a.walker_after(walker),
            _ => walker,
        }
    }

    fn traverse(&mut self, walker: &mut W) {
        match self {
            Action::Default => {},
            Action::Cc(a) => {
                a.traverse(walker);
            },
            Action::Configure => {},
            Action::Make => {},
            Action::MakeInstall => {},
            Action::Bin(a) => {
                a.traverse(walker);
            },
            Action::Man(a) => {
                a.traverse(walker);
            },
            Action::Link(a) => {
                a.traverse(walker);
            },
            Action::Rm(a) => {
                a.traverse(walker);
            },
            Action::Dir(a) => {
                a.traverse(walker);
            },
        }
    }
}

impl<W: ObjectWalker> ObjectTraversal<W> for ActionPlaybook {
    open spec fn walked(&self, after: &Self, walker: W) -> bool {
        &&& after.stage == self.stage
        &&& self.actions.walked(&after.actions, walker)
    }

    open spec fn walker_after(&self, walker: W) -> W {
        self.actions.walker_after(walker)
    }

    fn traverse(&mut self, walker: &mut W) {
        self.stage.traverse(walker);
        self.actions.traverse(walker);
    }
}

/// What a walk by `walker` makes of the entries `entries` of a map, and the
/// walker after it. The entries are shown one after another, the key of each
/// before its value, and what the walker makes of them is entered in a new
/// map: where it makes two keys the same, the later value takes the place
/// of the earlier.
pub open spec fn map_walked<W: ObjectWalker>(entries: Seq<(Seq<char>, Seq<char>)>, walker: W) -> (
    Seq<(Seq<char>, Seq<char>)>,
    W,
)
    decreases entries.len(),
{
    if entries.len() == 0 {
        (Seq::empty(), walker)
    } else {
        let (sofar, w) = map_walked(entries.drop_last(), walker);
        let (key, value) = entries.last();
        (
            entries_with(sofar, w.rewritten(key), w.advanced(key).rewritten(value)),
            w.advanced(key).advanced(value),
        )
    }
}

/// A map has no key twice after a walk, and no more entries than before.
pub proof fn lemma_map_walked_distinct<W: ObjectWalker>(
    entries: Seq<(Seq<char>, Seq<char>)>,
    walker: W,
)
    ensures
        distinct_keys(map_walked(entries, walker).0),
        map_walked(entries, walker).0.len() <= entries.len(),
    decreases entries.len(),
{
    if entries.len() > 0 {
        lemma_map_walked_distinct(entries.drop_last(), walker);
        let (sofar, w) = map_walked(entries.drop_last(), walker);
        let (key, value) = entries.last();
        lemma_entries_with_distinct(sofar, w.rewritten(key), w.advanced(key).rewritten(value));
        crate::definition::build_style::lemma_key_index(sofar, w.rewritten(key));
    }
}

impl<W: ObjectWalker> ObjectTraversal<W> for StringMap {
    open spec fn walked(&self, after: &Self, walker: W) -> bool {
        after@ == map_walked(self@, walker).0
    }

    open spec fn walker_after(&self, walker: W) -> W {
        map_walked(self@, walker).1
    }

    fn traverse(&mut self, walker: &mut W) {
        let ghost before = self@;
        let mut drained: Vec<(String, String)> = Vec::new();
        std::mem::swap(&mut self.entries, &mut drained);
        let mut fresh = StringMap::new();
        let ghost mut i: int = 0;
        proof {
            assert(before.skip(0) =~= before);
            assert(before.take(0) =~= Seq::empty());
        }
        while drained.len() > 0
            invariant
                0 <= i <= before.len(),
                drained.deep_view() == before.skip(i),
                fresh@ == map_walked(before.take(i), *old(walker)).0,
                *walker == map_walked(before.take(i), *old(walker)).1,
            decreases drained.len(),
        {
            let ghost raw = drained@;
            let ghost held = drained.deep_view();
            let (key, value) = drained.remove(0);
            let mut key = key;
            let mut value = value;
            proof {
                assert(held.len() == raw.len());
                assert(held[0] == (raw[0].0@, raw[0].1@));
                assert(held[0] == before.skip(i)[0]);
                assert(held[0] == before[i]);
                assert(drained.deep_view() =~= before.skip(i + 1)) by {
                    assert forall|k: int| 0 <= k < drained@.len() implies drained.deep_view()[k]
                        == before.skip(i + 1)[k] by {
                        assert(drained@[k] == raw[k + 1]);
                        assert(held[k + 1] == (raw[k + 1].0@, raw[k + 1].1@));
                        assert(held[k + 1] == before.skip(i)[k + 1]);
                    }
                }
                assert(before.take(i + 1).drop_last() =~= before.take(i));
                assert(before.take(i + 1).last() == before[i]);
            }
            key.traverse(walker);
            value.traverse(walker);
            fresh.insert(key, value);
            proof {
                i = i + 1;
            }
        }
        proof {
            assert(before.take(i) =~= before);
        }
        *self = fresh;
    }
}

impl<W: ObjectWalker> ObjectTraversal<W> for BuildStyleVariables {
    open spec fn walked(&self, after: &Self, walker: W) -> bool {
        let w1 = self.cc_flags.walker_after(walker);
        let w2 = self.cxx_flags.walker_after(w1);
        let w3 = self.configure_script.walker_after(w2);
        let w4 = self.configure_args.walker_after(w3);
        let w5 = self.make_command.walker_after(w4);
        let w6 = self.make_use_env.walker_after(w5);
        let w7 = self.make_args.walker_after(w6);
        &&& self.cc_flags.walked(&after.cc_flags, walker)
        &&& self.cxx_flags.walked(&after.cxx_flags, w1)
        &&& self.configure_script.walked(&after.configure_script, w2)
        &&& self.configure_args.walked(&after.configure_args, w3)
        &&& self.make_command.walked(&after.make_command, w4)
        &&& self.make_use_env.walked(&after.make_use_env, w5)
        &&& self.make_args.walked(&after.make_args, w6)
        &&& self.make_env.walked(&after.make_env, w7)
    }

    open spec fn walker_after(&self, walker: W) -> W {
        let w1 = self.cc_flags.walker_after(walker);
        let w2 = self.cxx_flags.walker_after(w1);
        let w3 = self.configure_script.walker_after(w2);
        let w4 = self.configure_args.walker_after(w3);
        let w5 = self.make_command.walker_after(w4);
        let w6 = self.make_use_env.walker_after(w5);
        let w7 = self.make_args.walker_after(w6);
        self.make_env.walker_after(w7)
    }

    fn traverse(&mut self, walker: &mut W) {
        self.cc_flags.traverse(walker);
        self.cxx_flags.traverse(walker);
        self.configure_script.traverse(walker);
        self.configure_args.traverse(walker);
        self.make_command.traverse(walker);
        self.make_use_env.traverse(walker);
        self.make_args.traverse(walker);
        self.make_env.traverse(walker);
    }
}

impl<W: ObjectWalker> ObjectTraversal<W> for BuildStyle {
    open spec fn walked(&self, after: &Self, walker: W) -> bool {
        &&& after.style == self.style
        &&& self.vars.walked(&after.vars, walker)
    }

    open spec fn walker_after(&self, walker: W) -> W {
        self.vars.walker_after(walker)
    }

    fn traverse(&mut self, walker: &mut W) {
        self.vars.traverse(walker);
    }
}

impl<W: ObjectWalker> ObjectTraversal<W> for RecipeOptions {
    open spec fn walked(&self, after: &Self, walker: W) -> bool {
        self.strip.walked(&after.strip, walker)
    }

    open spec fn walker_after(&self, walker: W) -> W {
        self.strip.walker_after(walker)
    }

    fn traverse(&mut self, walker: &mut W) {
        self.strip.traverse(walker);
    }
}

impl<W: ObjectWalker> ObjectTraversal<W> for FetchArtifact {
    open spec fn walked(&self, after: &Self, walker: W) -> bool {
        &&& self.url.walked(&after.url, walker)
        &&& self.file_name.walked(&after.file_name, self.url.walker_after(walker))
    }

    open spec fn walker_after(&self, walker: W) -> W {
        self.file_name.walker_after(self.url.walker_after(walker))
    }

    fn traverse(&mut self, walker: &mut W) {
        self.url.traverse(walker);
        self.file_name.traverse(walker);
    }
}

impl<W: ObjectWalker> ObjectTraversal<W> for ArtifactSource {
    open spec fn walked(&self, after: &Self, walker: W) -> bool {
        match *self {
            ArtifactSource::Fetch(a) => *after matches ArtifactSource::Fetch(b) && a.walked(
                &b,
                walker,
            ),
        }
    }

    open spec fn walker_after(&self, walker: W) -> W {
        match *self {
            ArtifactSource::Fetch(a) => a.walker_after(walker),
        }
    }

    fn traverse(&mut self, walker: &mut W) {
        match self {
            ArtifactSource::Fetch(a) => {
                a.traverse(walker);
            },
        }
    }
}

impl<W: ObjectWalker> ObjectTraversal<W> for Artifact {
    open spec fn walked(&self, after: &Self, walker: W) -> bool {
        &&& after.verification == self.verification
        &&& self.source.walked(&after.source, walker)
    }

    open spec fn walker_after(&self, walker: W) -> W {
        self.source.walker_after(walker)
    }

    fn traverse(&mut self, walker: &mut W) {
        self.source.traverse(walker);
    }
}

impl<W: ObjectWalker> ObjectTraversal<W> for Side {
    open spec fn walked(&self, after: &Self, walker: W) -> bool {
        let w1 = self.name.walker_after(walker);
        let w2 = self.description.walker_after(w1);
        let w3 = self.depends.walker_after(w2);
        &&& self.name.walked(&after.name, walker)
        &&& self.description.walked(&after.description, w1)
        &&& self.depends.walked(&after.depends, w2)
        &&& self.claims.walked(&after.claims, w3)
    }

    open spec fn walker_after(&self, walker: W) -> W {
        let w1 = self.name.walker_after(walker);
        let w2 = self.description.walker_after(w1);
        let w3 = self.depends.walker_after(w2);
        self.claims.walker_after(w3)
    }

    fn traverse(&mut self, walker: &mut W) {
        self.name.traverse(walker);
        self.description.traverse(walker);
        self.depends.traverse(walker);
        self.claims.traverse(walker);
    }
}

impl Recipe {
    /// `walker` after a walk over the first `n` fields of the recipe, in the
    /// order in which they are declared.
    pub open spec fn walker_at_field<W: ObjectWalker>(&self, walker: W, n: nat) -> W
        decreases n,
    {
        if n == 0 {
            walker
        } else {
            let w = self.walker_at_field(walker, (n - 1) as nat);
            if n == 1 {
                self.name.walker_after(w)
            } else if n == 2 {
                self.version.walker_after(w)
            } else if n == 3 {
                self.source_dir.walker_after(w)
            } else if n == 4 {
                self.revision.walker_after(w)
            } else if n == 5 {
                self.description.walker_after(w)
            } else if n == 6 {
                self.home.walker_after(w)
            } else if n == 7 {
                self.license.walker_after(w)
            } else if n == 8 {
                self.maintainers.walker_after(w)
            } else if n == 9 {
                self.depends.walker_after(w)
            } else if n == 10 {
                self.provides.walker_after(w)
            } else if n == 11 {
                self.artifacts.walker_after(w)
            } else if n == 12 {
                self.style.walker_after(w)
            } else if n == 13 {
                self.sides.walker_after(w)
            } else if n == 14 {
                self.options.walker_after(w)
            } else if n == 15 {
                self.playbooks.walker_after(w)
            } else {
                w
            }
        }
    }
}

impl<W: ObjectWalker> ObjectTraversal<W> for Recipe {
    open spec fn walked(&self, after: &Self, walker: W) -> bool {
        &&& self.name.walked(&after.name, self.walker_at_field(walker, 0))
        &&& self.version.walked(&after.version, self.walker_at_field(walker, 1))
        &&& self.source_dir.walked(&after.source_dir, self.walker_at_field(walker, 2))
        &&& self.revision.walked(&after.revision, self.walker_at_field(walker, 3))
        &&& self.description.walked(&after.description, self.walker_at_field(walker, 4))
        &&& self.home.walked(&after.home, self.walker_at_field(walker, 5))
        &&& self.license.walked(&after.license, self.walker_at_field(walker, 6))
        &&& self.maintainers.walked(&after.maintainers, self.walker_at_field(walker, 7))
        &&& self.depends.walked(&after.depends, self.walker_at_field(walker, 8))
        &&& self.provides.walked(&after.provides, self.walker_at_field(walker, 9))
        &&& self.artifacts.walked(&after.artifacts, self.walker_at_field(walker, 10))
        &&& self.style.walked(&after.style, self.walker_at_field(walker, 11))
        &&& self.sides.walked(&after.sides, self.walker_at_field(walker, 12))
        &&& self.options.walked(&after.options, self.walker_at_field(walker, 13))
        &&& self.playbooks.walked(&after.playbooks, self.walker_at_field(walker, 14))
    }

    open spec fn walker_after(&self, walker: W) -> W {
        self.walker_at_field(walker, 15)
    }

    fn traverse(&mut self, walker: &mut W) {
        proof {
            reveal_with_fuel(Recipe::walker_at_field, 16);
        }
        self.name.traverse(walker);
        self.version.traverse(walker);
        self.source_dir.traverse(walker);
        self.revision.traverse(walker);
        self.description.traverse(walker);
        self.home.traverse(walker);
        self.license.traverse(walker);
        self.maintainers.traverse(walker);
        self.depends.traverse(walker);
        self.provides.traverse(walker);
        self.artifacts.traverse(walker);
        self.style.traverse(walker);
        self.sides.traverse(walker);
        self.options.traverse(walker);
        self.playbooks.traverse(walker);
    }
}

/// What a walk passes over stays: the revision, whether binaries are
/// stripped, the family of the build style, the verification of every
/// artifact, and which stage each playbook is for, so that still no stage has
/// two playbooks. No list grows or shrinks.
pub proof fn lemma_walk_keeps<W: ObjectWalker>(before: Recipe, after: Recipe, walker: W)
    requires
        before.walked(&after, walker),
    ensures
        after@.revision == before@.revision,
        after@.strip == before@.strip,
        after@.style.style == before@.style.style,
        after@.license.len() == before@.license.len(),
        after@.maintainers.len() == before@.maintainers.len(),
        after@.depends.len() == before@.depends.len(),
        after@.provides.len() == before@.provides.len(),
        after@.sides.len() == before@.sides.len(),
        after@.artifacts.len() == before@.artifacts.len(),
        forall|i: int|
            0 <= i < before@.artifacts.len() ==> (#[trigger] after@.artifacts[i]).verification
                == before@.artifacts[i].verification,
        after@.playbooks.len() == before@.playbooks.len(),
        forall|i: int|
            0 <= i < before@.playbooks.len() ==> (#[trigger] after@.playbooks[i]).stage
                == before@.playbooks[i].stage,
        before@.well_formed() ==> after@.well_formed(),
{
    let wa = before.walker_at_field(walker, 10);
    let wp = before.walker_at_field(walker, 14);
    assert forall|i: int| 0 <= i < before@.artifacts.len() implies (
    #[trigger] after@.artifacts[i]).verification == before@.artifacts[i].verification by {
        assert(before.artifacts@[i].walked(
            &after.artifacts@[i],
            walker_at(before.artifacts@, wa, i),
        ));
    }
    assert forall|i: int| 0 <= i < before@.playbooks.len() implies (
    #[trigger] after@.playbooks[i]).stage == before@.playbooks[i].stage by {
        assert(before.playbooks@[i].walked(
            &after.playbooks@[i],
            walker_at(before.playbooks@, wp, i),
        ));
    }
    if before@.well_formed() {
        assert forall|i: int, j: int| 0 <= i < j < after@.playbooks.len() implies (
        #[trigger] after@.playbooks[i]).stage != (#[trigger] after@.playbooks[j]).stage by {
            assert(before@.playbooks[i].stage != before@.playbooks[j].stage);
        }
    }
}


/// The strings `list`, each as `walker` rewrites it.
pub open spec fn strings_rewritten<W: ObjectWalker>(list: Seq<Seq<char>>, walker: W) -> Seq<
    Seq<char>,
> {
    Seq::new(list.len(), |i: int| walker.rewritten(list[i]))
}

/// The string `text`, where there is one, as `walker` rewrites it.
pub open spec fn text_rewritten<W: ObjectWalker>(text: Option<Seq<char>>, walker: W) -> Option<
    Seq<char>,
> {
    match text {
        Some(t) => Some(walker.rewritten(t)),
        None => None,
    }
}

/// The strings `list`, where there is a list, each as `walker` rewrites it.
pub open spec fn list_rewritten<W: ObjectWalker>(list: Option<Seq<Seq<char>>>, walker: W) -> Option<
    Seq<Seq<char>>,
> {
    match list {
        Some(l) => Some(strings_rewritten(l, walker)),
        None => None,
    }
}

/// The map of the entries `entries` with every key and value as `walker`
/// rewrites it; of two keys that it makes the same, the later is left.
pub open spec fn map_rewritten<W: ObjectWalker>(
    entries: Seq<(Seq<char>, Seq<char>)>,
    walker: W,
) -> Seq<(Seq<char>, Seq<char>)>
    decreases entries.len(),
{
    if entries.len() == 0 {
        Seq::empty()
    } else {
        entries_with(
            map_rewritten(entries.drop_last(), walker),
            walker.rewritten(entries.last().0),
            walker.rewritten(entries.last().1),
        )
    }
}

/// The action `action` with every string as `walker` rewrites it.
pub open spec fn action_rewritten<W: ObjectWalker>(action: ActionView, walker: W) -> ActionView {
    match action {
        ActionView::Cc(cc) => ActionView::Cc(
            CcActionView {
                input: strings_rewritten(cc.input, walker),
                output: walker.rewritten(cc.output),
            },
        ),
        ActionView::Bin(list) => ActionView::Bin(strings_rewritten(list, walker)),
        ActionView::Man(list) => ActionView::Man(strings_rewritten(list, walker)),
        ActionView::Link(link) => ActionView::Link(
            LinkActionView {
                source: strings_rewritten(link.source, walker),
                target: walker.rewritten(link.target),
            },
        ),
        ActionView::Rm(list) => ActionView::Rm(strings_rewritten(list, walker)),
        ActionView::Dir(list) => ActionView::Dir(strings_rewritten(list, walker)),
        other => other,
    }
}

/// The playbook `playbook` with every string of its actions as `walker`
/// rewrites it.
pub open spec fn playbook_rewritten<W: ObjectWalker>(
    playbook: ActionPlaybookView,
    walker: W,
) -> ActionPlaybookView {
    ActionPlaybookView {
        stage: playbook.stage,
        actions: Seq::new(
            playbook.actions.len(),
            |i: int| action_rewritten(playbook.actions[i], walker),
        ),
    }
}

/// The artifact `artifact` with the strings of its source as `walker`
/// rewrites them, and with its verification as it is.
pub open spec fn artifact_rewritten<W: ObjectWalker>(artifact: ArtifactView, walker: W) -> ArtifactView {
    match artifact.source {
        ArtifactSourceView::Fetch(f) => ArtifactView {
            source: ArtifactSourceView::Fetch(
                FetchArtifactView {
                    url: walker.rewritten(f.url),
                    file_name: walker.rewritten(f.file_name),
                },
            ),
            verification: artifact.verification,
        },
    }
}

/// The side `side` with every string as `walker` rewrites it.
pub open spec fn side_rewritten<W: ObjectWalker>(side: SideView, walker: W) -> SideView {
    SideView {
        name: walker.rewritten(side.name),
        description: walker.rewritten(side.description),
        depends: strings_rewritten(side.depends, walker),
        claims: strings_rewritten(side.claims, walker),
    }
}

/// The settings `vars` with every string as `walker` rewrites it.
pub open spec fn vars_rewritten<W: ObjectWalker>(
    vars: BuildStyleVariablesView,
    walker: W,
) -> BuildStyleVariablesView {
    BuildStyleVariablesView {
        cc_flags: list_rewritten(vars.cc_flags, walker),
        cxx_flags: list_rewritten(vars.cxx_flags, walker),
        configure_script: text_rewritten(vars.configure_script, walker),
        configure_args: list_rewritten(vars.configure_args, walker),
        make_command: text_rewritten(vars.make_command, walker),
        make_use_env: vars.make_use_env,
        make_args: list_rewritten(vars.make_args, walker),
        make_env: match vars.make_env {
            Some(env) => Some(map_rewritten(env, walker)),
            None => None,
        },
    }
}

/// The recipe `recipe` with every string that a walk visits as `walker`
/// rewrites it, and with all that a walk passes over as it is: the revision,
/// whether binaries are stripped, the family of the build style, the
/// verification of the artifacts, and the stages of the playbooks.
pub open spec fn recipe_rewritten<W: ObjectWalker>(recipe: RecipeView, walker: W) -> RecipeView {
    RecipeView {
        name: walker.rewritten(recipe.name),
        version: walker.rewritten(recipe.version),
        source_dir: walker.rewritten(recipe.source_dir),
        revision: recipe.revision,
        description: walker.rewritten(recipe.description),
        home: text_rewritten(recipe.home, walker),
        license: strings_rewritten(recipe.license, walker),
        maintainers: strings_rewritten(recipe.maintainers, walker),
        depends: strings_rewritten(recipe.depends, walker),
        provides: strings_rewritten(recipe.provides, walker),
        artifacts: Seq::new(
            recipe.artifacts.len(),
            |i: int| artifact_rewritten(recipe.artifacts[i], walker),
        ),
        style: BuildStyleView {
            style: recipe.style.style,
            vars: vars_rewritten(recipe.style.vars, walker),
        },
        sides: Seq::new(recipe.sides.len(), |i: int| side_rewritten(recipe.sides[i], walker)),
        strip: recipe.strip,
        playbooks: Seq::new(
            recipe.playbooks.len(),
            |i: int| playbook_rewritten(recipe.playbooks[i], walker),
        ),
    }
}

/// A steady walker rewrites every string of a list, and is the same after.
pub proof fn lemma_steady_strings<W: ObjectWalker>(before: Vec<String>, after: Vec<String>, walker: W)
    requires
        steady(walker),
    ensures
        before.walker_after(walker) == walker,
        before.walked(&after, walker) ==> after.deep_view() == strings_rewritten(
            before.deep_view(),
            walker,
        ),
{
    assert forall|k: int| 0 <= k < before@.len() implies (#[trigger] before@[k]).walker_after(
        walker,
    ) == walker by {
        assert(walker.advanced(before@[k]@) == walker);
    }
    lemma_steady_walker_at(before@, walker, before@.len() as int);
    if before.walked(&after, walker) {
        assert forall|i: int| 0 <= i < before@.len() implies after.deep_view()[i]
            == strings_rewritten(before.deep_view(), walker)[i] by {
            lemma_steady_walker_at(before@, walker, i);
            assert(before@[i].walked(&after@[i], walker_at(before@, walker, i)));
        }
        assert(after.deep_view() =~= strings_rewritten(before.deep_view(), walker));
    }
}

/// A steady walker rewrites every string of a list that is there, and is the
/// same after.
pub proof fn lemma_steady_list<W: ObjectWalker>(
    before: Option<Vec<String>>,
    after: Option<Vec<String>>,
    walker: W,
)
    requires
        steady(walker),
    ensures
        before.walker_after(walker) == walker,
        before.walked(&after, walker) ==> after.deep_view() == list_rewritten(
            before.deep_view(),
            walker,
        ),
{
    match (before, after) {
        (Some(b), Some(a)) => {
            lemma_steady_strings(b, a, walker);
        },
        (Some(b), None) => {
            lemma_steady_strings(b, b, walker);
        },
        _ => {},
    }
}

/// A steady walker rewrites a string that is there, and is the same after.
pub proof fn lemma_steady_text<W: ObjectWalker>(
    before: Option<String>,
    after: Option<String>,
    walker: W,
)
    requires
        steady(walker),
    ensures
        before.walker_after(walker) == walker,
        before.walked(&after, walker) ==> after.deep_view() == text_rewritten(
            before.deep_view(),
            walker,
        ),
{
    if before is Some {
        assert(walker.advanced(before->0@) == walker);
    }
}

/// A steady walker rewrites every key and value of a map, and is the same
/// after.
pub proof fn lemma_steady_map<W: ObjectWalker>(entries: Seq<(Seq<char>, Seq<char>)>, walker: W)
    requires
        steady(walker),
    ensures
        map_walked(entries, walker) == (map_rewritten(entries, walker), walker),
    decreases entries.len(),
{
    if entries.len() > 0 {
        lemma_steady_map(entries.drop_last(), walker);
        let (key, value) = entries.last();
        assert(walker.advanced(key) == walker);
        assert(walker.advanced(value) == walker);
    }
}

/// A steady walker rewrites every string of an action, and is the same after.
pub proof fn lemma_steady_action<W: ObjectWalker>(before: Action, after: Action, walker: W)
    requires
        steady(walker),
    ensures
        before.walker_after(walker) == walker,
        before.walked(&after, walker) ==> after@ == action_rewritten(before@, walker),
{
    match (before, after) {
        (Action::Cc(b), Action::Cc(a)) => {
            lemma_steady_strings(b.input, a.input, walker);
            assert(walker.advanced(b.output@) == walker);
        },
        (Action::Cc(b), _) => {
            lemma_steady_strings(b.input, b.input, walker);
            assert(walker.advanced(b.output@) == walker);
        },
        (Action::Bin(b), Action::Bin(a)) => {
            lemma_steady_strings(b.binaries, a.binaries, walker);
        },
        (Action::Bin(b), _) => {
            lemma_steady_strings(b.binaries, b.binaries, walker);
        },
        (Action::Man(b), Action::Man(a)) => {
            lemma_steady_strings(b.man_files, a.man_files, walker);
        },
        (Action::Man(b), _) => {
            lemma_steady_strings(b.man_files, b.man_files, walker);
        },
        (Action::Link(b), Action::Link(a)) => {
            lemma_steady_strings(b.source, a.source, walker);
            assert(walker.advanced(b.target@) == walker);
        },
        (Action::Link(b), _) => {
            lemma_steady_strings(b.source, b.source, walker);
            assert(walker.advanced(b.target@) == walker);
        },
        (Action::Rm(b), Action::Rm(a)) => {
            lemma_steady_strings(b.targets, a.targets, walker);
        },
        (Action::Rm(b), _) => {
            lemma_steady_strings(b.targets, b.targets, walker);
        },
        (Action::Dir(b), Action::Dir(a)) => {
            lemma_steady_strings(b.targets, a.targets, walker);
        },
        (Action::Dir(b), _) => {
            lemma_steady_strings(b.targets, b.targets, walker);
        },
        _ => {},
    }
}

/// A steady walker rewrites every string of a playbook, and is the same
/// after.
pub proof fn lemma_steady_playbook<W: ObjectWalker>(
    before: ActionPlaybook,
    after: ActionPlaybook,
    walker: W,
)
    requires
        steady(walker),
    ensures
        before.walker_after(walker) == walker,
        before.walked(&after, walker) ==> after@ == playbook_rewritten(before@, walker),
{
    let items = before.actions@;
    assert forall|k: int| 0 <= k < items.len() implies (#[trigger] items[k]).walker_after(walker)
        == walker by {
        lemma_steady_action(items[k], items[k], walker);
    }
    lemma_steady_walker_at(items, walker, items.len() as int);
    if before.walked(&after, walker) {
        assert forall|i: int| 0 <= i < items.len() implies after@.actions[i]
            == playbook_rewritten(before@, walker).actions[i] by {
            lemma_steady_walker_at(items, walker, i);
            assert(items[i].walked(&after.actions@[i], walker_at(items, walker, i)));
            lemma_steady_action(items[i], after.actions@[i], walker);
        }
        assert(after@.actions =~= playbook_rewritten(before@, walker).actions);
    }
}

/// A steady walker rewrites the strings of the source of an artifact, and is
/// the same after.
pub proof fn lemma_steady_artifact<W: ObjectWalker>(before: Artifact, after: Artifact, walker: W)
    requires
        steady(walker),
    ensures
        before.walker_after(walker) == walker,
        before.walked(&after, walker) ==> after@ == artifact_rewritten(before@, walker),
{
    match before.source {
        ArtifactSource::Fetch(f) => {
            assert(walker.advanced(f.url@) == walker);
            assert(walker.advanced(f.file_name@) == walker);
        },
    }
}

/// A steady walker rewrites every string of a side, and is the same after.
pub proof fn lemma_steady_side<W: ObjectWalker>(before: Side, after: Side, walker: W)
    requires
        steady(walker),
    ensures
        before.walker_after(walker) == walker,
        before.walked(&after, walker) ==> after@ == side_rewritten(before@, walker),
{
    assert(walker.advanced(before.name@) == walker);
    assert(walker.advanced(before.description@) == walker);
    lemma_steady_strings(before.depends, after.depends, walker);
    lemma_steady_strings(before.claims, after.claims, walker);
}

/// A steady walker rewrites every string of the settings of a build style,
/// and is the same after.
pub proof fn lemma_steady_vars<W: ObjectWalker>(
    before: BuildStyleVariables,
    after: BuildStyleVariables,
    walker: W,
)
    requires
        steady(walker),
    ensures
        before.walker_after(walker) == walker,
        before.walked(&after, walker) ==> after@ == vars_rewritten(before@, walker),
{
    lemma_steady_list(before.cc_flags, after.cc_flags, walker);
    lemma_steady_list(before.cxx_flags, after.cxx_flags, walker);
    lemma_steady_text(before.configure_script, after.configure_script, walker);
    lemma_steady_list(before.configure_args, after.configure_args, walker);
    lemma_steady_text(before.make_command, after.make_command, walker);
    lemma_steady_list(before.make_args, after.make_args, walker);
    if before.make_env is Some {
        lemma_steady_map(before.make_env->0@, walker);
    }
}

/// Every string of a recipe that a walk visits is rewritten by a steady
/// walker, and all that a walk passes over stays: after a walk the recipe is
/// the recipe it was with every such string as the walker rewrites it.
pub proof fn lemma_walk_covers<W: ObjectWalker>(before: Recipe, after: Recipe, walker: W)
    requires
        steady(walker),
        before.walked(&after, walker),
    ensures
        after@ == recipe_rewritten(before@, walker),
        before.walker_after(walker) == walker,
{
    reveal_with_fuel(Recipe::walker_at_field, 16);
    assert(walker.advanced(before.name@) == walker);
    assert(walker.advanced(before.version@) == walker);
    assert(walker.advanced(before.source_dir@) == walker);
    assert(walker.advanced(before.description@) == walker);
    lemma_steady_text(before.home, after.home, walker);
    lemma_steady_strings(before.license, after.license, walker);
    lemma_steady_strings(before.maintainers, after.maintainers, walker);
    lemma_steady_strings(before.depends, after.depends, walker);
    lemma_steady_strings(before.provides, after.provides, walker);
    let artifacts = before.artifacts@;
    assert forall|k: int| 0 <= k < artifacts.len() implies (#[trigger] artifacts[k]).walker_after(
        walker,
    ) == walker by {
        lemma_steady_artifact(artifacts[k], artifacts[k], walker);
    }
    lemma_steady_walker_at(artifacts, walker, artifacts.len() as int);
    assert forall|i: int| 0 <= i < artifacts.len() implies after@.artifacts[i]
        == recipe_rewritten(before@, walker).artifacts[i] by {
        lemma_steady_walker_at(artifacts, walker, i);
        assert(artifacts[i].walked(&after.artifacts@[i], walker_at(artifacts, walker, i)));
        lemma_steady_artifact(artifacts[i], after.artifacts@[i], walker);
    }
    assert(after@.artifacts =~= recipe_rewritten(before@, walker).artifacts);
    lemma_steady_vars(before.style.vars, after.style.vars, walker);
    let sides = before.sides@;
    assert forall|k: int| 0 <= k < sides.len() implies (#[trigger] sides[k]).walker_after(walker)
        == walker by {
        lemma_steady_side(sides[k], sides[k], walker);
    }
    lemma_steady_walker_at(sides, walker, sides.len() as int);
    assert forall|i: int| 0 <= i < sides.len() implies after@.sides[i] == recipe_rewritten(
        before@,
        walker,
    ).sides[i] by {
        lemma_steady_walker_at(sides, walker, i);
        assert(sides[i].walked(&after.sides@[i], walker_at(sides, walker, i)));
        lemma_steady_side(sides[i], after.sides@[i], walker);
    }
    assert(after@.sides =~= recipe_rewritten(before@, walker).sides);
    let playbooks = before.playbooks@;
    assert forall|k: int| 0 <= k < playbooks.len() implies (#[trigger] playbooks[k]).walker_after(
        walker,
    ) == walker by {
        lemma_steady_playbook(playbooks[k], playbooks[k], walker);
    }
    lemma_steady_walker_at(playbooks, walker, playbooks.len() as int);
    assert forall|i: int| 0 <= i < playbooks.len() implies after@.playbooks[i]
        == recipe_rewritten(before@, walker).playbooks[i] by {
        lemma_steady_walker_at(playbooks, walker, i);
        assert(playbooks[i].walked(&after.playbooks@[i], walker_at(playbooks, walker, i)));
        lemma_steady_playbook(playbooks[i], after.playbooks@[i], walker);
    }
    assert(after@.playbooks =~= recipe_rewritten(before@, walker).playbooks);
}

} // verus!
