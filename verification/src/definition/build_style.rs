//! How a recipe's sources are configured, built and installed by default.

use crate::text::str_equal;
use vstd::prelude::*;

verus! {

/// The family of build system that a recipe uses.
#[derive(Debug, Clone, Copy, PartialEq, Eq, Structural)]
pub enum BuildStyleType {
    Noop,
    GnuConfigure,
    Configure,
}

/// The build style that a recipe names by `name`, if any.
pub open spec fn style_named(name: Seq<char>) -> Option<BuildStyleType> {
    if name == "noop"@ {
        Some(BuildStyleType::Noop)
    } else if name == "configure"@ {
        Some(BuildStyleType::Configure)
    } else if name == "gnu-configure"@ {
        Some(BuildStyleType::GnuConfigure)
    } else {
        None
    }
}

impl BuildStyleType {
    /// The build style that a recipe names by `data`.
    pub fn parse(data: &str) -> (r: Option<BuildStyleType>)
        ensures
            r == style_named(data@),
    {
        if str_equal(data, "noop") {
            Some(BuildStyleType::Noop)
        } else if str_equal(data, "configure") {
            Some(BuildStyleType::Configure)
        } else if str_equal(data, "gnu-configure") {
            Some(BuildStyleType::GnuConfigure)
        } else {
            None
        }
    }
}

impl Default for BuildStyleType {
    fn default() -> (r: Self)
        ensures
            r == BuildStyleType::Noop,
    {
        BuildStyleType::Noop
    }
}

/// A map from strings to strings, kept as a list of entries in which no key
/// occurs twice.
#[derive(Debug, Clone, PartialEq, Eq)]
pub struct StringMap {
    pub entries: Vec<(String, String)>,
}

impl View for StringMap {
    type V = Seq<(Seq<char>, Seq<char>)>;

    open spec fn view(&self) -> Seq<(Seq<char>, Seq<char>)> {
        self.entries.deep_view()
    }
}

impl DeepView for StringMap {
    type V = Seq<(Seq<char>, Seq<char>)>;

    open spec fn deep_view(&self) -> Seq<(Seq<char>, Seq<char>)> {
        self@
    }
}

/// The place of the entry with the key `key` in `entries`, or the length of
/// `entries` where there is none.
pub open spec fn key_index<V>(entries: Seq<(Seq<char>, V)>, key: Seq<char>) -> int
    decreases entries.len(),
{
    if entries.len() == 0 {
        0
    } else if entries[0].0 == key {
        0
    } else {
        1 + key_index(entries.drop_first(), key)
    }
}

/// `entries` with `value` as the value of `key`: in the place of the value
/// that was there, or as a new entry after all others.
pub open spec fn entries_with<V>(entries: Seq<(Seq<char>, V)>, key: Seq<char>, value: V) -> Seq<
    (Seq<char>, V),
> {
    let k = key_index(entries, key);
    if k < entries.len() {
        entries.update(k, (key, value))
    } else {
        entries.push((key, value))
    }
}

/// The place of a key lies within the list or at its end; the entry there has
/// the key, and none before it has.
pub proof fn lemma_key_index<V>(entries: Seq<(Seq<char>, V)>, key: Seq<char>)
    ensures
        0 <= key_index(entries, key) <= entries.len(),
        key_index(entries, key) < entries.len() ==> entries[key_index(entries, key)].0 == key,
        forall|i: int| 0 <= i < key_index(entries, key) ==> (#[trigger] entries[i]).0 != key,
    decreases entries.len(),
{
    if entries.len() > 0 && entries[0].0 != key {
        let rest = entries.drop_first();
        lemma_key_index(rest, key);
        assert forall|i: int| 0 <= i < key_index(entries, key) implies (#[trigger] entries[i]).0
            != key by {
            if i > 0 {
                assert(rest[i - 1] == entries[i]);
            }
        }
    }
}

/// Giving a key a value leaves no key with two entries.
pub proof fn lemma_entries_with_distinct<V>(entries: Seq<(Seq<char>, V)>, key: Seq<char>, value: V)
    requires
        distinct_keys(entries),
    ensures
        distinct_keys(entries_with(entries, key, value)),
{
    lemma_key_index(entries, key);
    let k = key_index(entries, key);
    let after = entries_with(entries, key, value);
    assert forall|i: int, j: int| 0 <= i < j < after.len() implies (#[trigger] after[i]).0 != (
    #[trigger] after[j]).0 by {
        if k < entries.len() {
            assert(entries[i].0 != entries[j].0);
            assert(entries[k].0 == key);
        } else {
            if j < entries.len() {
                assert(entries[i].0 != entries[j].0);
            } else {
                assert(entries[i].0 != key);
            }
        }
    }
}

impl StringMap {
    /// No key occurs twice.
    pub open spec fn well_formed(&self) -> bool {
        distinct_keys(self@)
    }

    /// A map without entries.
    pub fn new() -> (r: StringMap)
        ensures
            r@ == Seq::<(Seq<char>, Seq<char>)>::empty(),
            r.well_formed(),
    {
        let r = StringMap { entries: Vec::new() };
        assert(r.entries.deep_view() =~= Seq::empty());
        r
    }

    /// Makes `value` the value of `key`.
    pub fn insert(&mut self, key: String, value: String)
        ensures
            final(self)@ == entries_with(old(self)@, key@, value@),
            old(self).well_formed() ==> final(self).well_formed(),
    {
        let ghost before = self@;
        proof {
            lemma_key_index(before, key@);
            if distinct_keys(before) {
                lemma_entries_with_distinct(before, key@, value@);
            }
        }
        let mut i: usize = 0;
        while i < self.entries.len()
            invariant
                i <= self.entries.len(),
                before == self@,
                before == old(self)@,
                forall|j: int| 0 <= j < i ==> (#[trigger] before[j]).0 != key@,
            decreases self.entries.len() - i,
        {
            if str_equal(self.entries[i].0.as_str(), key.as_str()) {
                proof {
                    lemma_key_index(before, key@);
                    if distinct_keys(before) {
                        lemma_entries_with_distinct(before, key@, value@);
                    }
                    let k = key_index(before, key@);
                    assert(before[i as int].0 == key@);
                    if k > i {
                        assert(before[i as int].0 != key@);
                    }
                    if k < i {
                        assert(before[k].0 != key@);
                    }
                }
                self.entries.set(i, (key, value));
                assert(self.entries.deep_view() =~= before.update(i as int, (key@, value@)));
                return ;
            }
            i += 1;
        }
        proof {
            lemma_key_index(before, key@);
            if distinct_keys(before) {
                lemma_entries_with_distinct(before, key@, value@);
            }
            let k = key_index(before, key@);
            if k < before.len() {
                assert(before[k].0 != key@);
            }
        }
        self.entries.push((key, value));
        assert(self.entries.deep_view() =~= before.push((key@, value@)));
    }
}

/// The settings of a build style.
#[derive(Debug, Clone, PartialEq, Eq)]
pub struct BuildStyleVariables {
    pub cc_flags: Option<Vec<String>>,
    pub cxx_flags: Option<Vec<String>>,
    pub configure_script: Option<String>,
    pub configure_args: Option<Vec<String>>,
    pub make_command: Option<String>,
    pub make_use_env: Option<bool>,
    pub make_args: Option<Vec<String>>,
    pub make_env: Option<StringMap>,
}

pub struct BuildStyleVariablesView {
    pub cc_flags: Option<Seq<Seq<char>>>,
    pub cxx_flags: Option<Seq<Seq<char>>>,
    pub configure_script: Option<Seq<char>>,
    pub configure_args: Option<Seq<Seq<char>>>,
    pub make_command: Option<Seq<char>>,
    pub make_use_env: Option<bool>,
    pub make_args: Option<Seq<Seq<char>>>,
    pub make_env: Option<Seq<(Seq<char>, Seq<char>)>>,
}

/// No two entries of `entries` have the same key.
pub open spec fn distinct_keys<V>(entries: Seq<(Seq<char>, V)>) -> bool {
    forall|i: int, j: int|
        0 <= i < j < entries.len() ==> (#[trigger] entries[i]).0 != (#[trigger] entries[j]).0
}

impl View for BuildStyleVariables {
    type V = BuildStyleVariablesView;

    open spec fn view(&self) -> BuildStyleVariablesView {
        BuildStyleVariablesView {
            cc_flags: self.cc_flags.deep_view(),
            cxx_flags: self.cxx_flags.deep_view(),
            configure_script: self.configure_script.deep_view(),
            configure_args: self.configure_args.deep_view(),
            make_command: self.make_command.deep_view(),
            make_use_env: self.make_use_env,
            make_args: self.make_args.deep_view(),
            make_env: self.make_env.deep_view(),
        }
    }
}

impl BuildStyleVariablesView {
    /// The settings with nothing set.
    pub open spec fn unset() -> BuildStyleVariablesView {
        BuildStyleVariablesView {
            cc_flags: None,
            cxx_flags: None,
            configure_script: None,
            configure_args: None,
            make_command: None,
            make_use_env: None,
            make_args: None,
            make_env: None,
        }
    }

    /// No name occurs twice in `make_env`.
    pub open spec fn well_formed(self) -> bool {
        self.make_env matches Some(env) ==> distinct_keys(env)
    }
}

impl Default for BuildStyleVariables {
    fn default() -> (r: Self)
        ensures
            r@ == BuildStyleVariablesView::unset(),
    {
        BuildStyleVariables {
            cc_flags: None,
            cxx_flags: None,
            configure_script: None,
            configure_args: None,
            make_command: None,
            make_use_env: None,
            make_args: None,
            make_env: None,
        }
    }
}

/// A recipe's build style: its family and its settings.
#[derive(Debug, Clone, PartialEq, Eq)]
pub struct BuildStyle {
    pub style: BuildStyleType,
    pub vars: BuildStyleVariables,
}

pub struct BuildStyleView {
    pub style: BuildStyleType,
    pub vars: BuildStyleVariablesView,
}

impl View for BuildStyle {
    type V = BuildStyleView;

    open spec fn view(&self) -> BuildStyleView {
        BuildStyleView { style: self.style, vars: self.vars@ }
    }
}

impl DeepView for BuildStyle {
    type V = BuildStyleView;

    open spec fn deep_view(&self) -> BuildStyleView {
        self@
    }
}

impl BuildStyleView {
    /// The style of a recipe that names none.
    pub open spec fn unset() -> BuildStyleView {
        BuildStyleView { style: BuildStyleType::Noop, vars: BuildStyleVariablesView::unset() }
    }
}

impl Default for BuildStyle {
    fn default() -> (r: Self)
        ensures
            r@ == BuildStyleView::unset(),
    {
        BuildStyle { style: BuildStyleType::Noop, vars: BuildStyleVariables::default() }
    }
}

} // verus!
