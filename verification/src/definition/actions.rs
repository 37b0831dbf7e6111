//! Stages of the build pipeline and the actions that a recipe lists for them.

pub mod parsing;

use crate::text::str_equal;
use vstd::prelude::*;

verus! {

/// A stage of the build pipeline.
///
/// The variants stand in the order by which stages are compared (see
/// [`Stage::rank`]); the order in which the pipeline runs them is that of
/// [`Stage::stages`].
#[derive(Debug, Clone, Copy, PartialEq, Eq, Structural, Hash, PartialOrd, Ord)]
pub enum Stage {
    Fetch,
    Prepare,
    Extract,
    Configure,
    Build,
    Install,
    Split,
    Package,
}

/// The stages in the order in which the pipeline runs them.
pub open spec fn canonical_stages() -> Seq<Stage> {
    seq![
        Stage::Prepare,
        Stage::Fetch,
        Stage::Extract,
        Stage::Configure,
        Stage::Build,
        Stage::Install,
        Stage::Split,
        Stage::Package,
    ]
}

/// The stage that a recipe names by `name`, if any.
pub open spec fn stage_named(name: Seq<char>) -> Option<Stage> {
    if name == "fetch"@ {
        Some(Stage::Fetch)
    } else if name == "prepare"@ {
        Some(Stage::Prepare)
    } else if name == "extract"@ {
        Some(Stage::Extract)
    } else if name == "configure"@ {
        Some(Stage::Configure)
    } else if name == "build"@ {
        Some(Stage::Build)
    } else if name == "install"@ {
        Some(Stage::Install)
    } else {
        None
    }
}

impl Stage {
    /// The place of a stage in the order by which stages are compared.
    pub open spec fn rank_of(self) -> nat {
        match self {
            Stage::Fetch => 0,
            Stage::Prepare => 1,
            Stage::Extract => 2,
            Stage::Configure => 3,
            Stage::Build => 4,
            Stage::Install => 5,
            Stage::Split => 6,
            Stage::Package => 7,
        }
    }

    /// The place of a stage in the order by which stages are compared.
    pub fn rank(self) -> (r: u8)
        ensures
            r == self.rank_of(),
    {
        match self {
            Stage::Fetch => 0,
            Stage::Prepare => 1,
            Stage::Extract => 2,
            Stage::Configure => 3,
            Stage::Build => 4,
            Stage::Install => 5,
            Stage::Split => 6,
            Stage::Package => 7,
        }
    }

    /// The stages in the order in which the pipeline runs them: `Prepare`
    /// comes before `Fetch`.
    pub fn stages() -> (r: [Stage; 8])
        ensures
            r@ == canonical_stages(),
    {
        let r = [
            Stage::Prepare,
            Stage::Fetch,
            Stage::Extract,
            Stage::Configure,
            Stage::Build,
            Stage::Install,
            Stage::Split,
            Stage::Package,
        ];
        assert(r@ =~= canonical_stages());
        r
    }

    /// The stage that a recipe names by `input`. `Split` and `Package` cannot be
    /// named.
    pub fn from_str(input: &str) -> (r: Option<Stage>)
        ensures
            r == stage_named(input@),
    {
        if str_equal(input, "fetch") {
            Some(Stage::Fetch)
        } else if str_equal(input, "prepare") {
            Some(Stage::Prepare)
        } else if str_equal(input, "extract") {
            Some(Stage::Extract)
        } else if str_equal(input, "configure") {
            Some(Stage::Configure)
        } else if str_equal(input, "build") {
            Some(Stage::Build)
        } else if str_equal(input, "install") {
            Some(Stage::Install)
        } else {
            None
        }
    }
}

/// Compile the inputs into the output with the C compiler.
#[derive(Debug, Clone, PartialEq, Eq)]
pub struct CcAction {
    pub input: Vec<String>,
    pub output: String,
}

pub struct CcActionView {
    pub input: Seq<Seq<char>>,
    pub output: Seq<char>,
}

impl View for CcAction {
    type V = CcActionView;

    open spec fn view(&self) -> CcActionView {
        CcActionView { input: self.input.deep_view(), output: self.output@ }
    }
}

/// Install the named files as programs.
#[derive(Debug, Clone, PartialEq, Eq)]
pub struct BinAction {
    pub binaries: Vec<String>,
}

impl View for BinAction {
    type V = Seq<Seq<char>>;

    open spec fn view(&self) -> Seq<Seq<char>> {
        self.binaries.deep_view()
    }
}

/// Install the named files as manual pages.
#[derive(Debug, Clone, PartialEq, Eq)]
pub struct ManAction {
    pub man_files: Vec<String>,
}

impl View for ManAction {
    type V = Seq<Seq<char>>;

    open spec fn view(&self) -> Seq<Seq<char>> {
        self.man_files.deep_view()
    }
}

/// Make `target` a symbolic link to each of `source`.
#[derive(Debug, Clone, PartialEq, Eq)]
pub struct LinkAction {
    pub source: Vec<String>,
    pub target: String,
}

pub struct LinkActionView {
    pub source: Seq<Seq<char>>,
    pub target: Seq<char>,
}

impl View for LinkAction {
    type V = LinkActionView;

    open spec fn view(&self) -> LinkActionView {
        LinkActionView { source: self.source.deep_view(), target: self.target@ }
    }
}

/// Remove the named files and directories from the destination.
#[derive(Debug, Clone, PartialEq, Eq)]
pub struct RmAction {
    pub targets: Vec<String>,
}

impl View for RmAction {
    type V = Seq<Seq<char>>;

    open spec fn view(&self) -> Seq<Seq<char>> {
        self.targets.deep_view()
    }
}

/// Create the named directories in the destination.
#[derive(Debug, Clone, PartialEq, Eq)]
pub struct DirAction {
    pub targets: Vec<String>,
}

impl View for DirAction {
    type V = Seq<Seq<char>>;

    open spec fn view(&self) -> Seq<Seq<char>> {
        self.targets.deep_view()
    }
}

/// One step of a playbook.
#[derive(Debug, Clone, PartialEq, Eq)]
pub enum Action {
    /// The place where the stage's built-in behaviour runs.
    Default,
    Cc(CcAction),
    Configure,
    Make,
    MakeInstall,
    Bin(BinAction),
    Man(ManAction),
    Link(LinkAction),
    Rm(RmAction),
    Dir(DirAction),
}

pub enum ActionView {
    Default,
    Cc(CcActionView),
    Configure,
    Make,
    MakeInstall,
    Bin(Seq<Seq<char>>),
    Man(Seq<Seq<char>>),
    Link(LinkActionView),
    Rm(Seq<Seq<char>>),
    Dir(Seq<Seq<char>>),
}

impl View for Action {
    type V = ActionView;

    open spec fn view(&self) -> ActionView {
        match self {
            Action::Default => ActionView::Default,
            Action::Cc(a) => ActionView::Cc(a@),
            Action::Configure => ActionView::Configure,
            Action::Make => ActionView::Make,
            Action::MakeInstall => ActionView::MakeInstall,
            Action::Bin(a) => ActionView::Bin(a@),
            Action::Man(a) => ActionView::Man(a@),
            Action::Link(a) => ActionView::Link(a@),
            Action::Rm(a) => ActionView::Rm(a@),
            Action::Dir(a) => ActionView::Dir(a@),
        }
    }
}

impl DeepView for Action {
    type V = ActionView;

    open spec fn deep_view(&self) -> ActionView {
        self@
    }
}

/// The actions that a recipe lists for one stage.
#[derive(Debug, Clone, PartialEq, Eq)]
pub struct ActionPlaybook {
    pub stage: Stage,
    pub actions: Vec<Action>,
}

pub struct ActionPlaybookView {
    pub stage: Stage,
    pub actions: Seq<ActionView>,
}

impl View for ActionPlaybook {
    type V = ActionPlaybookView;

    open spec fn view(&self) -> ActionPlaybookView {
        ActionPlaybookView { stage: self.stage, actions: self.actions.deep_view() }
    }
}

impl DeepView for ActionPlaybook {
    type V = ActionPlaybookView;

    open spec fn deep_view(&self) -> ActionPlaybookView {
        self@
    }
}

} // verus!
