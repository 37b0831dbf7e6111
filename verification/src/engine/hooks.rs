//! Hooks: work that runs before or after a stage of the pipeline.

pub mod install;
pub mod package;

use crate::definition::actions::Stage;
use vstd::prelude::*;

verus! {

/// Whether a hook runs before or after the body of its stage.
#[derive(Debug, Copy, Clone, PartialEq, Eq, Structural, PartialOrd, Ord)]
pub enum HookTrigger {
    Before,
    After,
}

impl HookTrigger {
    /// The place of a trigger in the order by which triggers are compared.
    pub open spec fn rank_of(self) -> nat {
        match self {
            HookTrigger::Before => 0,
            HookTrigger::After => 1,
        }
    }

    /// The place of a trigger in the order by which triggers are compared.
    pub fn rank(self) -> (r: u8)
        ensures
            r == self.rank_of(),
    {
        match self {
            HookTrigger::Before => 0,
            HookTrigger::After => 1,
        }
    }
}

/// The work that a hook does.
#[derive(Debug, Copy, Clone, PartialEq, Eq, Structural)]
pub enum HookKind {
    CollectElf,
    StripBinaries,
    PinTimestamps,
    FixPermissions,
}

/// A hook: what it does, and when. Among the hooks of one stage and trigger
/// those of lower priority run first.
#[derive(Debug, Copy, Clone, PartialEq, Eq, Structural)]
pub struct Hook {
    pub kind: HookKind,
    pub priority: usize,
    pub stage: Stage,
    pub trigger: HookTrigger,
}

impl Hook {
    /// The number by which hooks are sorted: first by stage, then by trigger,
    /// then by priority.
    pub open spec fn sort_key(self) -> int {
        (self.stage.rank_of() * 2 + self.trigger.rank_of()) * 0x1_0000_0000_0000_0000
            + self.priority
    }

    /// The priority of the hook.
    pub fn prio(&self) -> (r: usize)
        ensures
            r == self.priority,
    {
        self.priority
    }

    /// The stage and the trigger at which the hook runs.
    pub fn when(&self) -> (r: (Stage, HookTrigger))
        ensures
            r == (self.stage, self.trigger),
    {
        (self.stage, self.trigger)
    }

    /// Whether this hook is sorted after `other`.
    pub fn sorts_after(&self, other: &Hook) -> (r: bool)
        ensures
            r == (self.sort_key() > other.sort_key()),
    {
        let a = self.stage.rank();
        let b = other.stage.rank();
        if a != b {
            return a > b;
        }
        let c = self.trigger.rank();
        let d = other.trigger.rank();
        if c != d {
            return c > d;
        }
        self.priority > other.priority
    }
}

/// The first place in `sorted` of a hook that is sorted after `hook`, or
/// the length of `sorted` where there is none.
pub open spec fn insert_place(sorted: Seq<Hook>, hook: Hook) -> int
    decreases sorted.len(),
{
    if sorted.len() == 0 {
        0
    } else if sorted[0].sort_key() > hook.sort_key() {
        0
    } else {
        1 + insert_place(sorted.drop_first(), hook)
    }
}

/// `sorted` with `hook` put behind the hooks that are not sorted after it.
pub open spec fn inserted(sorted: Seq<Hook>, hook: Hook) -> Seq<Hook> {
    sorted.insert(insert_place(sorted, hook), hook)
}

/// The hooks of `hooks` sorted by stage, trigger and priority; hooks that
/// agree in all three keep the order they had.
pub open spec fn stable_sorted(hooks: Seq<Hook>) -> Seq<Hook>
    decreases hooks.len(),
{
    if hooks.len() == 0 {
        Seq::empty()
    } else {
        inserted(stable_sorted(hooks.drop_last()), hooks.last())
    }
}

/// No hook of `hooks` stands before one that it is sorted after.
pub open spec fn is_sorted(hooks: Seq<Hook>) -> bool {
    forall|i: int, j: int|
        0 <= i < j < hooks.len() ==> (#[trigger] hooks[i]).sort_key() <= (
        #[trigger] hooks[j]).sort_key()
}

/// The hooks of `hooks` that run at `stage` and `trigger`, in their order.
pub open spec fn hooks_at(hooks: Seq<Hook>, stage: Stage, trigger: HookTrigger) -> Seq<Hook> {
    hooks.filter(|h: Hook| h.stage == stage && h.trigger == trigger)
}

/// The hooks that the engine knows, in the order in which they are listed.
pub open spec fn registered() -> Seq<Hook> {
    seq![
        CollectElf::hook_of(),
        StripBinaries::hook_of(),
        PinTimestamps::hook_of(),
        FixPermissions::hook_of(),
    ]
}

/// The place at which a hook is put lies within the list or at its end; the
/// hook there is sorted after it, and none before it is.
pub proof fn lemma_insert_place(sorted: Seq<Hook>, hook: Hook)
    ensures
        0 <= insert_place(sorted, hook) <= sorted.len(),
        insert_place(sorted, hook) < sorted.len() ==> sorted[insert_place(
            sorted,
            hook,
        )].sort_key() > hook.sort_key(),
        forall|i: int|
            0 <= i < insert_place(sorted, hook) ==> (#[trigger] sorted[i]).sort_key()
                <= hook.sort_key(),
    decreases sorted.len(),
{
    if sorted.len() > 0 && sorted[0].sort_key() <= hook.sort_key() {
        let rest = sorted.drop_first();
        lemma_insert_place(rest, hook);
        assert forall|i: int| 0 <= i < insert_place(sorted, hook) implies (
        #[trigger] sorted[i]).sort_key() <= hook.sort_key() by {
            if i > 0 {
                assert(rest[i - 1] == sorted[i]);
            }
        }
    }
}

/// Putting a hook into a sorted list leaves it sorted.
pub proof fn lemma_inserted_sorted(sorted: Seq<Hook>, hook: Hook)
    requires
        is_sorted(sorted),
    ensures
        is_sorted(inserted(sorted, hook)),
        inserted(sorted, hook).len() == sorted.len() + 1,
        inserted(sorted, hook).to_multiset() == sorted.to_multiset().insert(hook),
{
    lemma_insert_place(sorted, hook);
    let k = insert_place(sorted, hook);
    let after = inserted(sorted, hook);
    assert forall|i: int, j: int| 0 <= i < j < after.len() implies (#[trigger] after[i]).sort_key()
        <= (#[trigger] after[j]).sort_key() by {
        if j < k {
            assert(after[i] == sorted[i] && after[j] == sorted[j]);
        } else if j == k {
            assert(after[i] == sorted[i]);
        } else if i < k {
            assert(after[i] == sorted[i] && after[j] == sorted[j - 1]);
            if k < sorted.len() {
                assert(sorted[k].sort_key() <= sorted[j - 1].sort_key() || j - 1 == k);
            }
        } else if i == k {
            assert(after[j] == sorted[j - 1]);
            assert(sorted[k].sort_key() <= sorted[j - 1].sort_key() || j - 1 == k);
        } else {
            assert(after[i] == sorted[i - 1] && after[j] == sorted[j - 1]);
        }
    }
    vstd::seq_lib::to_multiset_insert(sorted, k, hook);
}

/// Sorting gives a sorted list of the same hooks.
pub proof fn lemma_stable_sorted(hooks: Seq<Hook>)
    ensures
        is_sorted(stable_sorted(hooks)),
        stable_sorted(hooks).len() == hooks.len(),
        stable_sorted(hooks).to_multiset() == hooks.to_multiset(),
    decreases hooks.len(),
{
    if hooks.len() == 0 {
        assert(hooks =~= Seq::empty());
    } else {
        lemma_stable_sorted(hooks.drop_last());
        lemma_inserted_sorted(stable_sorted(hooks.drop_last()), hooks.last());
        assert(hooks.drop_last().push(hooks.last()) =~= hooks);
        vstd::seq_lib::lemma_multiset_commutative(hooks.drop_last(), seq![hooks.last()]);
        hooks.drop_last().to_multiset_ensures();
    }
}

/// Collects the ELF files and static libraries that a recipe installed.
#[derive(Debug, PartialEq, Eq)]
pub struct CollectElf;

/// Strips the binaries that a recipe installed.
#[derive(Debug, PartialEq, Eq)]
pub struct StripBinaries;

/// Sets the times of all installed files to the time at which the build began.
#[derive(Debug, PartialEq, Eq)]
pub struct PinTimestamps;

/// Puts the permissions of installed files right. It does nothing yet.
#[derive(Debug, PartialEq, Eq)]
pub struct FixPermissions;

impl CollectElf {
    /// When the hook runs.
    pub open spec fn hook_of() -> Hook {
        Hook {
            kind: HookKind::CollectElf,
            priority: 0,
            stage: Stage::Install,
            trigger: HookTrigger::After,
        }
    }

    /// When the hook runs: after the install stage, first.
    pub fn hook() -> (r: Hook)
        ensures
            r == Self::hook_of(),
    {
        Hook {
            kind: HookKind::CollectElf,
            priority: 0,
            stage: Stage::Install,
            trigger: HookTrigger::After,
        }
    }
}

impl StripBinaries {
    /// When the hook runs.
    pub open spec fn hook_of() -> Hook {
        Hook {
            kind: HookKind::StripBinaries,
            priority: 100,
            stage: Stage::Install,
            trigger: HookTrigger::After,
        }
    }

    /// When the hook runs: after the install stage, late.
    pub fn hook() -> (r: Hook)
        ensures
            r == Self::hook_of(),
    {
        Hook {
            kind: HookKind::StripBinaries,
            priority: 100,
            stage: Stage::Install,
            trigger: HookTrigger::After,
        }
    }
}

impl PinTimestamps {
    /// When the hook runs.
    pub open spec fn hook_of() -> Hook {
        Hook {
            kind: HookKind::PinTimestamps,
            priority: 100,
            stage: Stage::Package,
            trigger: HookTrigger::Before,
        }
    }

    /// When the hook runs: before the package stage, late.
    pub fn hook() -> (r: Hook)
        ensures
            r == Self::hook_of(),
    {
        Hook {
            kind: HookKind::PinTimestamps,
            priority: 100,
            stage: Stage::Package,
            trigger: HookTrigger::Before,
        }
    }
}

impl FixPermissions {
    /// When the hook runs.
    pub open spec fn hook_of() -> Hook {
        Hook {
            kind: HookKind::FixPermissions,
            priority: 0,
            stage: Stage::Package,
            trigger: HookTrigger::Before,
        }
    }

    /// When the hook runs: before the package stage, first.
    pub fn hook() -> (r: Hook)
        ensures
            r == Self::hook_of(),
    {
        Hook {
            kind: HookKind::FixPermissions,
            priority: 0,
            stage: Stage::Package,
            trigger: HookTrigger::Before,
        }
    }
}

/// The hooks that the engine knows, in the order in which they are listed.
pub fn hooks() -> (r: Vec<Hook>)
    ensures
        r@ == registered(),
{
    let r = vec![
        CollectElf::hook(),
        StripBinaries::hook(),
        PinTimestamps::hook(),
        FixPermissions::hook(),
    ];
    assert(r@ =~= registered());
    r
}

/// `hooks` sorted by stage, trigger and priority; hooks that agree in all
/// three keep the order they had.
pub fn sort_hooks(hooks: &Vec<Hook>) -> (r: Vec<Hook>)
    ensures
        r@ == stable_sorted(hooks@),
        is_sorted(r@),
        r@.to_multiset() == hooks@.to_multiset(),
{
    let mut sorted: Vec<Hook> = Vec::new();
    let mut i: usize = 0;
    assert(hooks@.take(0) =~= Seq::empty());
    while i < hooks.len()
        invariant
            i <= hooks.len(),
            sorted@ == stable_sorted(hooks@.take(i as int)),
        decreases hooks.len() - i,
    {
        let hook = hooks[i];
        proof {
            assert(hooks@.take(i + 1).drop_last() =~= hooks@.take(i as int));
            lemma_stable_sorted(hooks@.take(i as int));
        }
        let ghost before = sorted@;
        let mut k: usize = 0;
        while k < sorted.len() && !sorted[k].sorts_after(&hook)
            invariant
                k <= sorted.len(),
                sorted@ == before,
                forall|j: int| 0 <= j < k ==> (#[trigger] before[j]).sort_key() <= hook.sort_key(),
            decreases sorted.len() - k,
        {
            k += 1;
        }
        proof {
            lemma_insert_place(before, hook);
            let p = insert_place(before, hook);
            if p < k {
                assert(before[p].sort_key() <= hook.sort_key());
            }
            if k < p {
                assert(before[k as int].sort_key() <= hook.sort_key());
            }
        }
        sorted.insert(k, hook);
        i += 1;
    }
    proof {
        assert(hooks@.take(i as int) =~= hooks@);
        lemma_stable_sorted(hooks@);
    }
    sorted
}

/// The hooks that the engine knows, sorted.
pub fn get_sorted_hooks() -> (r: Vec<Hook>)
    ensures
        r@ == stable_sorted(registered()),
{
    sort_hooks(&hooks())
}

/// The hooks of `hooks` that run at `stage` and `trigger`, in their order.
pub fn select_hooks(hooks: &Vec<Hook>, stage: Stage, trigger: HookTrigger) -> (r: Vec<Hook>)
    ensures
        r@ == hooks_at(hooks@, stage, trigger),
{
    let ghost pred = |h: Hook| h.stage == stage && h.trigger == trigger;
    let mut r: Vec<Hook> = Vec::new();
    let mut i: usize = 0;
    assert(hooks@.take(0) =~= Seq::empty());
    assert(Seq::<Hook>::empty().filter(pred) =~= Seq::empty()) by {
        reveal(Seq::filter);
    }
    while i < hooks.len()
        invariant
            i <= hooks.len(),
            pred == (|h: Hook| h.stage == stage && h.trigger == trigger),
            r@ == hooks@.take(i as int).filter(pred),
        decreases hooks.len() - i,
    {
        let hook = hooks[i];
        proof {
            let next = hooks@.take(i + 1);
            assert(next.drop_last() =~= hooks@.take(i as int));
            assert(next.last() == hook);
            reveal(Seq::filter);
        }
        if hook.stage == stage && hook.trigger == trigger {
            r.push(hook);
        }
        i += 1;
    }
    proof {
        assert(hooks@.take(i as int) =~= hooks@);
    }
    r
}

/// Among sorted hooks, those of one stage and trigger stand in the order of
/// their priorities, and each of them is there as often as in the list: the
/// hooks of a stage and trigger run sorted by priority, whatever hooks are
/// registered.
pub proof fn lemma_hooks_run_by_priority(all: Seq<Hook>, stage: Stage, trigger: HookTrigger)
    ensures
        ({
            let run = hooks_at(stable_sorted(all), stage, trigger);
            &&& forall|i: int, j: int|
                0 <= i < j < run.len() ==> (#[trigger] run[i]).priority <= (
                #[trigger] run[j]).priority
            &&& forall|i: int|
                0 <= i < run.len() ==> (#[trigger] run[i]).stage == stage && run[i].trigger
                    == trigger
            &&& forall|h: Hook|
                h.stage == stage && h.trigger == trigger ==> #[trigger] run.to_multiset().count(h)
                    == all.to_multiset().count(h)
        }),
{
    let sorted = stable_sorted(all);
    let pred = |h: Hook| h.stage == stage && h.trigger == trigger;
    let run = sorted.filter(pred);
    lemma_stable_sorted(all);
    lemma_filter_sorted(sorted, pred);
    assert forall|i: int| 0 <= i < run.len() implies (#[trigger] run[i]).stage == stage
        && run[i].trigger == trigger by {
        sorted.lemma_filter_pred(pred, i);
    }
    assert forall|i: int, j: int| 0 <= i < j < run.len() implies (#[trigger] run[i]).priority
        <= (#[trigger] run[j]).priority by {
        sorted.lemma_filter_pred(pred, i);
        sorted.lemma_filter_pred(pred, j);
        assert(run[i].sort_key() <= run[j].sort_key());
    }
    assert forall|h: Hook| h.stage == stage && h.trigger == trigger implies #[trigger] run.to_multiset().count(h)
        == all.to_multiset().count(h) by {
        lemma_filter_count(sorted, pred, h);
    }
}

/// What is left of a sorted list after some of its hooks were taken out is
/// sorted.
pub proof fn lemma_filter_sorted(hooks: Seq<Hook>, pred: spec_fn(Hook) -> bool)
    requires
        is_sorted(hooks),
    ensures
        is_sorted(hooks.filter(pred)),
    decreases hooks.len(),
{
    reveal(Seq::filter);
    if hooks.len() > 0 {
        let rest = hooks.drop_last();
        assert forall|i: int, j: int| 0 <= i < j < rest.len() implies (#[trigger] rest[i]).sort_key()
            <= (#[trigger] rest[j]).sort_key() by {
            assert(rest[i] == hooks[i] && rest[j] == hooks[j]);
        }
        lemma_filter_sorted(rest, pred);
        let kept = rest.filter(pred);
        if pred(hooks.last()) {
            assert forall|i: int, j: int| 0 <= i < j < kept.len() + 1 implies (
            #[trigger] kept.push(hooks.last())[i]).sort_key() <= (#[trigger] kept.push(
                hooks.last(),
            )[j]).sort_key() by {
                if j == kept.len() {
                    lemma_filter_member(rest, pred, i);
                    let k = choose|k: int| 0 <= k < rest.len() && rest[k] == kept[i];
                    assert(hooks[k] == kept[i]);
                    assert(hooks[k].sort_key() <= hooks[hooks.len() - 1].sort_key());
                }
            }
        }
    }
}

/// Every hook that was left in came from the list.
pub proof fn lemma_filter_member(hooks: Seq<Hook>, pred: spec_fn(Hook) -> bool, i: int)
    requires
        0 <= i < hooks.filter(pred).len(),
    ensures
        exists|k: int| 0 <= k < hooks.len() && hooks[k] == hooks.filter(pred)[i],
    decreases hooks.len(),
{
    reveal(Seq::filter);
    if hooks.len() > 0 {
        let rest = hooks.drop_last();
        let kept = rest.filter(pred);
        if i < kept.len() {
            lemma_filter_member(rest, pred, i);
            let k = choose|k: int| 0 <= k < rest.len() && rest[k] == kept[i];
            assert(hooks[k] == hooks.filter(pred)[i]);
        } else {
            assert(hooks[hooks.len() - 1] == hooks.filter(pred)[i]);
        }
    }
}

/// A hook that is left in is there as often as it was.
pub proof fn lemma_filter_count(hooks: Seq<Hook>, pred: spec_fn(Hook) -> bool, h: Hook)
    requires
        pred(h),
    ensures
        hooks.filter(pred).to_multiset().count(h) == hooks.to_multiset().count(h),
    decreases hooks.len(),
{
    reveal(Seq::filter);
    if hooks.len() == 0 {
        assert(hooks.filter(pred) =~= Seq::empty());
        assert(hooks =~= Seq::empty());
    } else {
        let rest = hooks.drop_last();
        lemma_filter_count(rest, pred, h);
        assert(rest.push(hooks.last()) =~= hooks);
        rest.to_multiset_ensures();
        rest.filter(pred).to_multiset_ensures();
    }
}

} // verus!
